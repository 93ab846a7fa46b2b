use format::kind::Kind;
use format::template::{classify_kinds, infer_kind, scan_placeholders};

const ALL: [Kind; 9] = [
    Kind::Display,
    Kind::Debug,
    Kind::Binary,
    Kind::Octal,
    Kind::LowerHex,
    Kind::UpperHex,
    Kind::LowerExp,
    Kind::UpperExp,
    Kind::Pointer,
];

const EXOTIC: [(char, Kind); 7] = [
    ('b', Kind::Binary),
    ('e', Kind::LowerExp),
    ('x', Kind::LowerHex),
    ('o', Kind::Octal),
    ('p', Kind::Pointer),
    ('E', Kind::UpperExp),
    ('X', Kind::UpperHex),
];

#[test]
fn kind_names() {
    let names: Vec<&str> = ALL.iter().map(|k| k.name()).collect();
    assert_eq!(
        names,
        vec![
            "Display", "Debug", "Binary", "Octal", "LowerHex", "UpperHex", "LowerExp", "UpperExp",
            "Pointer"
        ]
    );
}

#[test]
fn kind_letters_round_trip() {
    for kind in ALL {
        match kind.letter() {
            Some(letter) => assert_eq!(kind, Kind::from_letter(letter)),
            None => assert_eq!(Kind::Display, kind),
        }
    }
    assert_eq!(Some('?'), Kind::Debug.letter());
    assert_eq!(Some('X'), Kind::UpperHex.letter());
    assert_eq!(None, Kind::Display.letter());
}

#[test]
fn kind_from_letter() {
    for (letter, kind) in EXOTIC {
        assert_eq!(kind, Kind::from_letter(letter));
        assert!(kind.exotic());
    }
    assert_eq!(Kind::Debug, Kind::from_letter('?'));
    assert_eq!(Kind::Display, Kind::from_letter('5'));
    assert_eq!(Kind::Display, Kind::from_letter(':'));
    assert_eq!(Kind::Display, Kind::from_letter('B'));
    assert!(!Kind::Debug.exotic());
    assert!(!Kind::Display.exotic());
}

#[test]
fn debug_only_templates_are_debug() {
    assert_eq!(Kind::Debug, infer_kind("{:?}"));
    assert_eq!(Kind::Debug, infer_kind("{:#?}"));
    assert_eq!(Kind::Debug, infer_kind("{0:?} and {name:#?}"));
    assert_eq!(Kind::Debug, infer_kind("{:x?}{:X?}"));
    assert_eq!(Kind::Debug, infer_kind("{:>8?}"));
}

#[test]
fn one_exotic_letter_wins_wherever_it_stands() {
    for (letter, kind) in EXOTIC {
        assert_eq!(kind, infer_kind(&format!("{{:{}}}", letter)));
        assert_eq!(kind, infer_kind(&format!("{{:?}}, {{:{}}}", letter)));
        assert_eq!(kind, infer_kind(&format!("{{:{}}}, {{:?}}", letter)));
        assert_eq!(kind, infer_kind(&format!("{{}}, {{:{}}}, {{}}", letter)));
        assert_eq!(kind, infer_kind(&format!("{{:{0}}}{{:#{0}}}", letter)));
        assert_eq!(kind, infer_kind(&format!("{{name:>10{}}} {{}} {{:?}}", letter)));
    }
}

#[test]
fn two_exotic_letters_fall_back_to_display() {
    for (first, _) in EXOTIC {
        for (second, _) in EXOTIC {
            if first != second {
                let template = format!("{{:{}}}, {{:{}}}", first, second);
                assert_eq!(Kind::Display, infer_kind(&template));
                let template = format!("{{:?}}{{:{}}}{{}}{{:{}}}", first, second);
                assert_eq!(Kind::Display, infer_kind(&template));
            }
        }
    }
    assert_eq!(Kind::Display, infer_kind("{:b}, {:x}"));
    assert_eq!(Kind::Display, infer_kind("{:b}{:o}{:b}"));
}

#[test]
fn plain_templates_are_display() {
    assert_eq!(Kind::Display, infer_kind(""));
    assert_eq!(Kind::Display, infer_kind("none"));
    assert_eq!(Kind::Display, infer_kind("{}"));
    assert_eq!(Kind::Display, infer_kind("{}, {}"));
    assert_eq!(Kind::Display, infer_kind("{a}, {0}"));
    assert_eq!(Kind::Display, infer_kind("{:}"));
    assert_eq!(Kind::Display, infer_kind("{:>5}"));
    assert_eq!(Kind::Display, infer_kind("{:.3}"));
    assert_eq!(Kind::Display, infer_kind("{:?}{}"));
}

#[test]
fn classifying_twice_gives_the_same_kind() {
    for template in ["", "{:?}", "{:b}, {:?}", "{:b}, {:x}", "{}{:p}", "{{:x}}"] {
        assert_eq!(infer_kind(template), infer_kind(template));
    }
}

#[test]
fn escaped_braces_open_nothing() {
    assert_eq!(Kind::Display, infer_kind("{{:x}}"));
    assert_eq!(Vec::<Kind>::new(), scan_placeholders("{{:x}}"));
    assert_eq!(Kind::LowerHex, infer_kind("{{{:x}}}"));
    assert_eq!(vec![Kind::LowerHex], scan_placeholders("{{{:x}}}"));
    assert_eq!(Kind::Binary, infer_kind("}}{:b}{{"));
    assert_eq!(Kind::Octal, infer_kind("a } b {:o}"));
}

#[test]
fn unclosed_brace_ends_the_scan() {
    assert_eq!(Kind::Display, infer_kind("{"));
    assert_eq!(Kind::Display, infer_kind("{:x"));
    assert_eq!(Kind::Debug, infer_kind("{:?} {:x"));
    assert_eq!(vec![Kind::Debug], scan_placeholders("{:?} {:x"));
    assert_eq!(Vec::<Kind>::new(), scan_placeholders("text {"));
}

#[test]
fn letter_needs_a_colon() {
    assert_eq!(vec![Kind::Display], scan_placeholders("{x}"));
    assert_eq!(vec![Kind::Display], scan_placeholders("{b}"));
    assert_eq!(vec![Kind::Binary], scan_placeholders("{x:b}"));
    assert_eq!(vec![Kind::LowerHex], scan_placeholders("{b:x}"));
    assert_eq!(vec![Kind::Display], scan_placeholders("{:x<5}"));
    assert_eq!(vec![Kind::Display], scan_placeholders("{:?<5}"));
}

#[test]
fn placeholders_are_scanned_in_order() {
    assert_eq!(
        vec![
            Kind::Binary,
            Kind::Debug,
            Kind::Display,
            Kind::UpperHex,
            Kind::Pointer,
            Kind::Display
        ],
        scan_placeholders("{:b} {:?} {} x{0:#X}y {p:p}{{}}{}")
    );
    assert_eq!(Vec::<Kind>::new(), scan_placeholders("no placeholder"));
    assert_eq!(vec![Kind::Octal], scan_placeholders("é{:o}ü"));
}

#[test]
fn classify_follows_the_three_rules() {
    assert_eq!(Kind::Display, classify_kinds(&[]));
    assert_eq!(Kind::Debug, classify_kinds(&[Kind::Debug]));
    assert_eq!(Kind::Debug, classify_kinds(&[Kind::Debug, Kind::Debug]));
    assert_eq!(Kind::Display, classify_kinds(&[Kind::Debug, Kind::Display]));
    assert_eq!(Kind::Display, classify_kinds(&[Kind::Display]));
    assert_eq!(Kind::Pointer, classify_kinds(&[Kind::Pointer]));
    assert_eq!(
        Kind::Pointer,
        classify_kinds(&[Kind::Debug, Kind::Pointer, Kind::Display, Kind::Pointer])
    );
    assert_eq!(
        Kind::Display,
        classify_kinds(&[Kind::Pointer, Kind::Debug, Kind::Octal])
    );
    assert_eq!(
        Kind::Display,
        classify_kinds(&[Kind::LowerExp, Kind::UpperExp])
    );
}

#[test]
fn classify_ignores_order_and_repetition() {
    let one = [Kind::Debug, Kind::Binary, Kind::Display];
    let other = [Kind::Display, Kind::Display, Kind::Binary, Kind::Debug, Kind::Binary];
    assert_eq!(classify_kinds(&one), classify_kinds(&other));
    assert_eq!(Kind::Binary, classify_kinds(&other));
}

#[test]
fn scenario_templates() {
    assert_eq!(Kind::Display, infer_kind("none"));
    assert_eq!(Kind::Debug, infer_kind("{:?}"));
    assert_eq!(Kind::Binary, infer_kind("{:b}, {:?}"));
    assert_eq!(Kind::Display, infer_kind("{:b}, {:x}"));
}
