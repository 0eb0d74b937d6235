use baru::markup::markup_char;
use baru::markup::MARKUP;
use baru::parse_format;
use baru::FormatModule;
use baru::ModuleConfig;

#[test]
fn parse_template_with_two_placeholders() {
    assert_eq!(
        parse_format("%t free  %b"),
        vec![FormatModule('t', 1), FormatModule('b', 10)]
    );
}

#[test]
fn parse_empty_template() {
    assert_eq!(parse_format(""), vec![]);
}

#[test]
fn parse_template_without_introducer() {
    assert_eq!(parse_format("t"), vec![]);
    assert_eq!(parse_format("time t"), vec![]);
    assert_eq!(parse_format("a b c d m i s t w"), vec![]);
}

#[test]
fn parse_introducer_at_end() {
    assert_eq!(parse_format("%"), vec![]);
    assert_eq!(parse_format("%t %"), vec![FormatModule('t', 1)]);
}

#[test]
fn parse_unknown_marker_is_dropped() {
    assert_eq!(parse_format("%x %z %T %% %1"), vec![]);
    assert_eq!(parse_format("%x%t"), vec![FormatModule('t', 3)]);
}

#[test]
fn parse_introducer_after_introducer_is_inert() {
    assert_eq!(parse_format("%%t"), vec![]);
    assert_eq!(parse_format("%%%t"), vec![]);
    assert_eq!(parse_format("%%%%t"), vec![]);
    assert_eq!(parse_format("%t%%b%w"), vec![FormatModule('t', 1), FormatModule('w', 6)]);
}

#[test]
fn parse_marker_right_after_placeholder() {
    // the introducer at 2 follows a marker, not an introducer
    assert_eq!(parse_format("%t%b"), vec![FormatModule('t', 1), FormatModule('b', 3)]);
}

#[test]
fn parse_repeated_markers() {
    assert_eq!(
        parse_format("%t %t%t"),
        vec![FormatModule('t', 1), FormatModule('t', 4), FormatModule('t', 6)]
    );
}

#[test]
fn parse_all_markers() {
    let found = parse_format("%a%b%c%d%m%i%s%t%w");
    let markers: Vec<char> = found.iter().map(|module| module.0).collect();
    assert_eq!(markers, MARKUP.to_vec());
    let offsets: Vec<usize> = found.iter().map(|module| module.1).collect();
    assert_eq!(offsets, vec![1, 3, 5, 7, 9, 11, 13, 15, 17]);
}

#[test]
fn parse_offsets_count_bytes() {
    // the degree sign takes two bytes, the snowman three
    assert_eq!(parse_format("\u{b0}%t"), vec![FormatModule('t', 3)]);
    assert_eq!(
        parse_format("\u{2603}%w \u{b0}%a"),
        vec![FormatModule('w', 4), FormatModule('a', 9)]
    );
}

#[test]
fn parse_keeps_template_order() {
    let found = parse_format("%w | %a | %b");
    let markers: Vec<char> = found.iter().map(|module| module.0).collect();
    assert_eq!(markers, vec!['w', 'a', 'b']);
}

#[test]
fn parse_offsets_ascend() {
    let found = parse_format("%m %c  %t %%d %d %i%s   %w    %a %q %");
    for pair in found.windows(2) {
        assert!(pair[0].1 < pair[1].1);
    }
    assert_eq!(found.len(), 8);
}

#[test]
fn parse_counts_live_placeholders() {
    let template = "%t%%t %b x%w %% %z %a%";
    let bytes = template.as_bytes();
    let mut expected = 0;
    for at in 0..bytes.len() {
        let live = bytes[at] == b'%' && (at == 0 || bytes[at - 1] != b'%');
        if live && at + 1 < bytes.len() && MARKUP.contains(&(bytes[at + 1] as char)) {
            expected += 1;
        }
    }
    assert_eq!(expected, 4);
    assert_eq!(parse_format(template).len(), expected);
}

#[test]
fn parse_twice_gives_the_same() {
    let template = "%t free  %b %%a %w";
    assert_eq!(parse_format(template), parse_format(template));
}

#[test]
fn markup_char_knows_the_nine_markers() {
    for c in MARKUP {
        assert!(markup_char(c));
    }
    for c in ['e', 'f', 'A', 'T', '%', ' ', '0', '\u{b0}'] {
        assert!(!markup_char(c));
    }
}

#[test]
fn kinds_and_markers_correspond() {
    let kinds = [
        (ModuleConfig::DateTime, 'a'),
        (ModuleConfig::Battery, 'b'),
        (ModuleConfig::Cpu, 'c'),
        (ModuleConfig::Brightness, 'd'),
        (ModuleConfig::Mic, 'i'),
        (ModuleConfig::Memory, 'm'),
        (ModuleConfig::Sound, 's'),
        (ModuleConfig::Temperature, 't'),
        (ModuleConfig::Wireless, 'w'),
    ];
    for (kind, markup) in kinds {
        assert_eq!(kind.markup(), markup);
        assert_eq!(ModuleConfig::from_markup(markup), Some(kind));
        assert!(markup_char(markup));
    }
    assert_eq!(ModuleConfig::from_markup('x'), None);
    assert_eq!(ModuleConfig::from_markup('%'), None);
}

#[test]
fn only_sound_and_mic_need_the_audio_client() {
    for markup in MARKUP {
        let kind = ModuleConfig::from_markup(markup).unwrap();
        assert_eq!(kind.needs_pulse(), markup == 's' || markup == 'i');
    }
}

#[test]
fn parse_agrees_with_a_reader_of_characters() {
    let templates = [
        "",
        "%t free  %b",
        "\u{b0}%t",
        "%\u{b0}t",
        "\u{f10c3}%%w%a",
        "\u{2603}%w \u{b0}%a\u{b0}",
        "%t\u{2603}%\u{2603}%b%",
        "\u{25}\u{125}%m\u{7f}%i\u{80}%s",
    ];
    for template in templates {
        let chars: Vec<(usize, char)> = template.char_indices().collect();
        let mut expected = vec![];
        for k in 0..chars.len() {
            let live = chars[k].1 == '%' && (k == 0 || chars[k - 1].1 != '%');
            if live && k + 1 < chars.len() && MARKUP.contains(&chars[k + 1].1) {
                expected.push(FormatModule(chars[k + 1].1, chars[k + 1].0));
            }
        }
        assert_eq!(parse_format(template), expected, "template {:?}", template);
    }
}
