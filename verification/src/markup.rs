//! The template: which modules it asks for, and where.
//!
//! A template is read as its UTF-8 bytes. The introducer and the markers are
//! ASCII, and in UTF-8 an ASCII byte never lies inside a longer character, so
//! a byte that equals one of them is that character, and its index is the
//! character's offset in the template. The module `characters` proves it.

use vstd::prelude::*;
use vstd::utf8::encode_utf8;

verus! {

/// The characters that name a module.
pub const MARKUP: [char; 9] = ['a', 'b', 'c', 'd', 'm', 'i', 's', 't', 'w'];

/// The character that introduces a placeholder.
pub const INTRODUCER: char = '%';

/// A placeholder found in a template: the marker, and the offset of the
/// marker in the template, in bytes.
#[derive(Debug, Clone, Copy, PartialEq, Eq)]
pub struct FormatModule(pub char, pub usize);

/// Whether `c` names a module.
pub open spec fn is_markup(c: char) -> bool {
    MARKUP@.contains(c)
}

/// Whether `c` names a module.
pub fn markup_char(c: char) -> (yes: bool)
    ensures
        yes == is_markup(c),
{
    let mut k: usize = 0;
    while k < 9
        invariant
            k <= 9,
            forall|j: int| 0 <= j < k ==> MARKUP@[j] != c,
        decreases 9 - k,
    {
        if MARKUP[k] == c {
            return true;
        }
        k += 1;
    }
    false
}

/// Whether a placeholder begins at `at`: the introducer stands there, no
/// introducer stands just before it, and a marker follows it.
///
/// Only the one byte before `at` is looked at, so an introducer that follows
/// another never begins a placeholder, however many stand in a row.
pub open spec fn fires(template: Seq<u8>, at: int) -> bool {
    &&& 0 <= at
    &&& at + 1 < template.len()
    &&& template[at] == INTRODUCER as u8
    &&& (at == 0 || template[at - 1] != INTRODUCER as u8)
    &&& is_markup(template[at + 1] as char)
}

/// The offsets of `template`, in ascending order.
pub open spec fn offsets(template: Seq<u8>) -> Seq<int> {
    Seq::new(template.len(), |at: int| at)
}

/// `fires` on `template`, as a predicate on offsets.
pub open spec fn firing(template: Seq<u8>) -> spec_fn(int) -> bool {
    |at: int| fires(template, at)
}

/// The placeholder that begins at the offset `at` of `template`.
pub open spec fn placeholder_at(template: Seq<u8>, at: int) -> FormatModule {
    FormatModule(template[at + 1] as char, (at + 1) as usize)
}

/// `placeholder_at` on `template`, as a function of the offset.
pub open spec fn placing(template: Seq<u8>) -> spec_fn(int) -> FormatModule {
    |at: int| placeholder_at(template, at)
}

/// The placeholders of `template`, from left to right: one for each offset
/// at which a placeholder begins.
pub open spec fn placeholders(template: Seq<u8>) -> Seq<FormatModule> {
    offsets(template).filter(firing(template)).map_values(placing(template))
}

/// Whether `found` lists the placeholders of `template`: each entry is a
/// placeholder of the template, the offsets ascend, and none is missing.
pub open spec fn is_parse_of(found: Seq<FormatModule>, template: Seq<u8>) -> bool {
    &&& forall|k: int|
        0 <= k < found.len() ==> fires(template, (#[trigger] found[k]).1 - 1) && found[k].0
            == template[found[k].1 as int] as char
    &&& forall|j: int, k: int|
        0 <= j < k < found.len() ==> (#[trigger] found[j]).1 < (#[trigger] found[k]).1
    &&& forall|at: int|
        fires(template, at) ==> exists|k: int|
            0 <= k < found.len() && (#[trigger] found[k]).1 == at + 1
}

/// The offsets below `end` at which a placeholder begins, as the filter
/// keeps them: each begins one, they ascend, and none is missing.
proof fn lemma_fired(template: Seq<u8>, end: int)
    requires
        0 <= end <= template.len(),
    ensures
        ({
            let fired = offsets(template).take(end).filter(firing(template));
            &&& forall|k: int|
                0 <= k < fired.len() ==> 0 <= #[trigger] fired[k] < end && fires(
                    template,
                    fired[k],
                )
            &&& forall|j: int, k: int|
                0 <= j < k < fired.len() ==> #[trigger] fired[j] < #[trigger] fired[k]
            &&& forall|at: int|
                0 <= at < end && fires(template, at) ==> exists|k: int|
                    0 <= k < fired.len() && #[trigger] fired[k] == at
        }),
    decreases end,
{
    reveal(Seq::filter);
    if end > 0 {
        lemma_fired(template, end - 1);
        let earlier = offsets(template).take(end - 1);
        let before = earlier.filter(firing(template));
        let fired = offsets(template).take(end).filter(firing(template));
        assert(offsets(template).take(end) == earlier.push(end - 1));
        Seq::lemma_filter_push(earlier, end - 1, firing(template));
        assert forall|at: int| 0 <= at < end && fires(template, at) implies exists|k: int|
            0 <= k < fired.len() && #[trigger] fired[k] == at by {
            if at < end - 1 {
                let k = choose|k: int| 0 <= k < before.len() && #[trigger] before[k] == at;
                assert(fired[k] == at);
            } else {
                assert(fired[fired.len() - 1] == at);
            }
        }
    }
}

/// The marker of every placeholder names a module.
pub proof fn lemma_placeholder_markers(template: Seq<u8>)
    ensures
        forall|k: int|
            0 <= k < placeholders(template).len() ==> is_markup(
                (#[trigger] placeholders(template)[k]).0,
            ),
{
    let fired = offsets(template).filter(firing(template));
    lemma_fired(template, template.len() as int);
    assert(offsets(template).take(template.len() as int) == offsets(template));
    assert forall|k: int| 0 <= k < placeholders(template).len() implies is_markup(
        (#[trigger] placeholders(template)[k]).0,
    ) by {
        assert(fires(template, fired[k]));
    }
}

/// What `placeholders` gives lists the placeholders of the template: as many
/// entries as there are offsets at which one begins, in ascending order.
pub proof fn lemma_placeholders_is_parse(template: Seq<u8>)
    requires
        template.len() <= usize::MAX,
    ensures
        is_parse_of(placeholders(template), template),
        placeholders(template).len() == Set::new(|at: int| fires(template, at)).len(),
{
    let fired = offsets(template).filter(firing(template));
    let found = placeholders(template);
    lemma_fired(template, template.len() as int);
    assert(offsets(template).take(template.len() as int) == offsets(template));
    assert forall|at: int| fires(template, at) implies exists|k: int|
        0 <= k < found.len() && (#[trigger] found[k]).1 == at + 1 by {
        let k = choose|k: int| 0 <= k < fired.len() && #[trigger] fired[k] == at;
        assert(found[k].1 == at + 1);
    }
    assert(fired.no_duplicates());
    fired.unique_seq_to_set();
    assert(fired.to_set() =~= Set::new(|at: int| fires(template, at))) by {
        assert forall|at: int| fires(template, at) implies fired.to_set().contains(at) by {
            let k = choose|k: int| 0 <= k < fired.len() && #[trigger] fired[k] == at;
            assert(fired.contains(fired[k]));
        }
    }
}

/// A template has one list of placeholders: two lists that `is_parse_of`
/// accepts for it are equal.
pub proof fn lemma_parse_unique(
    template: Seq<u8>,
    first: Seq<FormatModule>,
    second: Seq<FormatModule>,
)
    requires
        is_parse_of(first, template),
        is_parse_of(second, template),
    ensures
        first == second,
{
    lemma_parse_agree(template, first, second, first.len() as int);
    lemma_parse_agree(template, second, first, second.len() as int);
    assert(first =~= second);
}

/// The first `upto` entries of `first` are also the first entries of `second`.
proof fn lemma_parse_agree(
    template: Seq<u8>,
    first: Seq<FormatModule>,
    second: Seq<FormatModule>,
    upto: int,
)
    requires
        is_parse_of(first, template),
        is_parse_of(second, template),
        0 <= upto <= first.len(),
    ensures
        upto <= second.len(),
        forall|k: int| 0 <= k < upto ==> first[k] == second[k],
    decreases upto,
{
    if upto > 0 {
        lemma_parse_agree(template, first, second, upto - 1);
        let last = upto - 1;
        let at = first[last].1 - 1;
        // the entry of `second` at the same offset cannot stand earlier
        let m = choose|m: int| 0 <= m < second.len() && (#[trigger] second[m]).1 == at + 1;
        if m < last {
            assert(first[m].1 < first[last].1);
        }
        // nor can the entry of `second` at `last` stand for an earlier offset
        let back = second[last].1 - 1;
        let w = choose|w: int| 0 <= w < first.len() && (#[trigger] first[w]).1 == back + 1;
        if w < last {
            assert(second[w].1 < second[last].1);
        }
        if w > last {
            assert(first[last].1 < first[w].1);
            assert(second[last].1 < second[m].1 || m == last);
        }
        assert(first[last].1 == second[last].1);
        assert(first[last] == second[last]);
    }
}

/// Parsing depends on the template alone: what two runs on one template
/// give is the same.
pub proof fn lemma_parse_format_repeatable(
    format: Seq<char>,
    first: Seq<FormatModule>,
    second: Seq<FormatModule>,
)
    requires
        first == placeholders(encode_utf8(format)),
        second == placeholders(encode_utf8(format)),
    ensures
        first == second,
{
}

/// The placeholders of `format`, from left to right.
pub fn parse_format(format: &str) -> (format_modules: Vec<FormatModule>)
    ensures
        format_modules@ == placeholders(encode_utf8(format@)),
{
    let bytes = format.as_bytes();
    let n = bytes.len();
    let ghost template = bytes@;
    let mut format_modules: Vec<FormatModule> = Vec::new();
    let mut at: usize = 0;
    proof {
        reveal(Seq::filter);
        assert(offsets(template).take(0).filter(firing(template)).map_values(placing(template))
            == Seq::<FormatModule>::empty());
    }
    while at < n
        invariant
            at <= n,
            n == bytes.len(),
            template == bytes@,
            format_modules@ == offsets(template).take(at as int).filter(
                firing(template),
            ).map_values(placing(template)),
        decreases n - at,
    {
        let live = bytes[at] == INTRODUCER as u8 && (at == 0 || bytes[at - 1] != INTRODUCER as u8);
        let found = live && at + 1 < n && markup_char(bytes[at + 1] as char);
        proof {
            let earlier = offsets(template).take(at as int);
            assert(offsets(template).take(at + 1) == earlier.push(at as int));
            Seq::lemma_filter_push(earlier, at as int, firing(template));
            assert(found == fires(template, at as int));
            if found {
                assert(earlier.filter(firing(template)).push(at as int).map_values(
                    placing(template),
                ) == earlier.filter(firing(template)).map_values(placing(template)).push(
                    placeholder_at(template, at as int),
                ));
            }
        }
        if found {
            format_modules.push(FormatModule(bytes[at + 1] as char, at + 1));
        }
        at += 1;
    }
    proof {
        assert(offsets(template).take(n as int) == offsets(template));
    }
    format_modules
}

} // verus!
