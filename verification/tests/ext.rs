use std::fmt;

use format::ext::FormatterExt;
use format::sink::Sink;

const TEXTS: [&str; 7] = ["a", "", "two words", "x\ny", "tail\n", "\n", "é\n\nü"];

struct Raw<'a>(&'a str);

impl fmt::Debug for Raw<'_> {
    fn fmt(&self, f: &mut fmt::Formatter) -> fmt::Result {
        f.write_str(self.0)
    }
}

struct StdList<'a>(&'a [&'a str]);

impl fmt::Debug for StdList<'_> {
    fn fmt(&self, f: &mut fmt::Formatter) -> fmt::Result {
        f.debug_list().entries(self.0.iter().map(|e| Raw(e))).finish()
    }
}

struct StdSet<'a>(&'a [&'a str]);

impl fmt::Debug for StdSet<'_> {
    fn fmt(&self, f: &mut fmt::Formatter) -> fmt::Result {
        f.debug_set().entries(self.0.iter().map(|e| Raw(e))).finish()
    }
}

struct StdMap<'a>(&'a [(&'a str, &'a str)]);

impl fmt::Debug for StdMap<'_> {
    fn fmt(&self, f: &mut fmt::Formatter) -> fmt::Result {
        f.debug_map()
            .entries(self.0.iter().map(|(k, v)| (Raw(k), Raw(v))))
            .finish()
    }
}

struct StdStruct<'a>(&'a str, &'a [(&'a str, &'a str)]);

impl fmt::Debug for StdStruct<'_> {
    fn fmt(&self, f: &mut fmt::Formatter) -> fmt::Result {
        let mut builder = f.debug_struct(self.0);
        for (name, value) in self.1 {
            builder.field(name, &Raw(value));
        }
        builder.finish()
    }
}

struct StdTuple<'a>(&'a str, &'a [&'a str]);

impl fmt::Debug for StdTuple<'_> {
    fn fmt(&self, f: &mut fmt::Formatter) -> fmt::Result {
        let mut builder = f.debug_tuple(self.0);
        for value in self.1 {
            builder.field(&Raw(value));
        }
        builder.finish()
    }
}

fn standard<T: fmt::Debug>(value: &T, alternate: bool) -> String {
    if alternate {
        format!("{:#?}", value)
    } else {
        format!("{:?}", value)
    }
}

fn list(entries: &[&str], alternate: bool) -> String {
    let mut sink = Sink::with_alternate(alternate);
    sink.display_list().entries(entries).finish().unwrap();
    sink.into_string()
}

fn set(entries: &[&str], alternate: bool) -> String {
    let mut sink = Sink::with_alternate(alternate);
    sink.display_set().entries(entries).finish().unwrap();
    sink.into_string()
}

fn map(entries: &[(&str, &str)], alternate: bool) -> String {
    let mut sink = Sink::with_alternate(alternate);
    sink.display_map().entries(entries).finish().unwrap();
    sink.into_string()
}

fn structure(name: &str, fields: &[(&str, &str)], alternate: bool) -> String {
    let mut sink = Sink::with_alternate(alternate);
    let mut builder = sink.display_struct(name);
    for (field, value) in fields {
        builder.field(field, value);
    }
    builder.finish().unwrap();
    sink.into_string()
}

fn tuple(name: &str, fields: &[&str], alternate: bool) -> String {
    let mut sink = Sink::with_alternate(alternate);
    let mut builder = sink.display_tuple(name);
    for value in fields {
        builder.field(value);
    }
    builder.finish().unwrap();
    sink.into_string()
}

#[test]
fn list_layouts() {
    assert_eq!("[]", list(&[], false));
    assert_eq!("[]", list(&[], true));
    assert_eq!("[a]", list(&["a"], false));
    assert_eq!("[a, b, c]", list(&["a", "b", "c"], false));
    assert_eq!("[\n    a,\n    b,\n]", list(&["a", "b"], true));
    assert_eq!("[\n    x\n    y,\n]", list(&["x\ny"], true));
}

#[test]
fn list_entry_by_entry() {
    let mut sink = Sink::new();
    sink.write_str("v = ").unwrap();
    let mut builder = sink.display_list();
    assert!(!builder.has_fields);
    builder.entry("0").entry("1");
    assert!(builder.has_fields);
    builder.entries(&["2", "3"]).entry("4");
    assert_eq!(Ok(()), builder.finish());
    assert_eq!("v = [0, 1, 2, 3, 4]", sink.as_str());
    assert!(!sink.alternate());
}

#[test]
fn list_matches_the_standard_builder() {
    for alternate in [false, true] {
        assert_eq!(standard(&StdList(&[]), alternate), list(&[], alternate));
        assert_eq!(
            standard(&StdList(&TEXTS), alternate),
            list(&TEXTS, alternate)
        );
        for text in TEXTS {
            assert_eq!(
                standard(&StdList(&[text]), alternate),
                list(&[text], alternate)
            );
            assert_eq!(
                standard(&StdList(&[text, "z"]), alternate),
                list(&[text, "z"], alternate)
            );
        }
    }
}

#[test]
fn set_layouts() {
    assert_eq!("{}", set(&[], false));
    assert_eq!("{a, b}", set(&["a", "b"], false));
    assert_eq!("{\n    a,\n    b,\n}", set(&["a", "b"], true));
    let mut sink = Sink::new();
    let mut builder = sink.display_set();
    builder.entry("1").entries(&[]).entry("2");
    assert!(builder.has_fields);
    assert_eq!(Ok(()), builder.finish());
    assert_eq!("{1, 2}", sink.as_str());
}

#[test]
fn set_matches_the_standard_builder() {
    for alternate in [false, true] {
        assert_eq!(standard(&StdSet(&[]), alternate), set(&[], alternate));
        assert_eq!(standard(&StdSet(&TEXTS), alternate), set(&TEXTS, alternate));
    }
}

#[test]
fn map_layouts() {
    assert_eq!("{}", map(&[], false));
    assert_eq!("{}", map(&[], true));
    assert_eq!("{k: v}", map(&[("k", "v")], false));
    assert_eq!("{k: v, l: w}", map(&[("k", "v"), ("l", "w")], false));
    assert_eq!(
        "{\n    k: v,\n    l: w,\n}",
        map(&[("k", "v"), ("l", "w")], true)
    );
}

#[test]
fn map_key_then_value() {
    let mut sink = Sink::new();
    let mut builder = sink.display_map();
    assert!(!builder.has_key);
    builder.key("a");
    assert!(builder.has_key);
    assert!(!builder.has_fields);
    builder.value("1");
    assert!(!builder.has_key);
    assert!(builder.has_fields);
    builder.entry("b", "2").entries(&[("c", "3")]).key("d").value("4");
    assert_eq!(Ok(()), builder.finish());
    assert_eq!("{a: 1, b: 2, c: 3, d: 4}", sink.as_str());
}

#[test]
fn map_matches_the_standard_builder() {
    let mut pairs: Vec<(&str, &str)> = Vec::new();
    for key in TEXTS {
        for value in TEXTS {
            pairs.push((key, value));
            for alternate in [false, true] {
                assert_eq!(
                    standard(&StdMap(&[(key, value)]), alternate),
                    map(&[(key, value)], alternate)
                );
            }
        }
    }
    for alternate in [false, true] {
        assert_eq!(standard(&StdMap(&pairs), alternate), map(&pairs, alternate));
    }
}

#[test]
fn struct_layouts() {
    assert_eq!("Unit", structure("Unit", &[], false));
    assert_eq!("Unit", structure("Unit", &[], true));
    assert_eq!("P { x: 1 }", structure("P", &[("x", "1")], false));
    assert_eq!(
        "P { x: 1, y: 2 }",
        structure("P", &[("x", "1"), ("y", "2")], false)
    );
    assert_eq!(
        "P {\n    x: 1,\n    y: 2,\n}",
        structure("P", &[("x", "1"), ("y", "2")], true)
    );
}

#[test]
fn struct_matches_the_standard_builder() {
    let mut fields: Vec<(&str, &str)> = Vec::new();
    for value in TEXTS {
        fields.push(("field", value));
    }
    for alternate in [false, true] {
        assert_eq!(
            standard(&StdStruct("Name", &[]), alternate),
            structure("Name", &[], alternate)
        );
        assert_eq!(
            standard(&StdStruct("Name", &fields), alternate),
            structure("Name", &fields, alternate)
        );
        assert_eq!(
            standard(&StdStruct("", &fields[..1]), alternate),
            structure("", &fields[..1], alternate)
        );
    }
}

#[test]
fn tuple_layouts() {
    assert_eq!("Unit", tuple("Unit", &[], false));
    assert_eq!("T(a)", tuple("T", &["a"], false));
    assert_eq!("T(a, b)", tuple("T", &["a", "b"], false));
    assert_eq!("T(\n    a,\n    b,\n)", tuple("T", &["a", "b"], true));
    assert_eq!("(a,)", tuple("", &["a"], false));
    assert_eq!("(a, b)", tuple("", &["a", "b"], false));
    assert_eq!("(\n    a,\n)", tuple("", &["a"], true));
    assert_eq!("", tuple("", &[], false));
}

#[test]
fn tuple_counts_its_fields() {
    let mut sink = Sink::new();
    let mut builder = sink.display_tuple("");
    assert_eq!(0, builder.fields);
    assert!(builder.empty_name);
    builder.field("a");
    assert_eq!(1, builder.fields);
    builder.field("b").field("c");
    assert_eq!(3, builder.fields);
    assert_eq!(Ok(()), builder.finish());
    assert_eq!("(a, b, c)", sink.as_str());
    let mut sink = Sink::new();
    assert!(!sink.display_tuple("T").empty_name);
}

#[test]
fn tuple_matches_the_standard_builder() {
    for alternate in [false, true] {
        for name in ["Name", ""] {
            assert_eq!(
                standard(&StdTuple(name, &[]), alternate),
                tuple(name, &[], alternate)
            );
            assert_eq!(
                standard(&StdTuple(name, &TEXTS), alternate),
                tuple(name, &TEXTS, alternate)
            );
            for text in TEXTS {
                assert_eq!(
                    standard(&StdTuple(name, &[text]), alternate),
                    tuple(name, &[text], alternate)
                );
            }
        }
    }
}

#[test]
fn option_layouts() {
    let mut sink = Sink::new();
    assert_eq!(Ok(()), sink.display_option(Some("1")));
    assert_eq!("Some(1)", sink.as_str());
    assert_eq!(Ok(()), sink.display_option(None));
    assert_eq!("Some(1)None", sink.as_str());
    let mut sink = Sink::with_alternate(true);
    assert_eq!(Ok(()), sink.display_option(Some("1")));
    assert_eq!("Some(\n    1,\n)", sink.as_str());
    let mut sink = Sink::with_alternate(true);
    assert_eq!(Ok(()), sink.display_option(None));
    assert_eq!("None", sink.as_str());
    assert!(sink.alternate());
}

#[test]
fn option_matches_the_standard_rendering() {
    for alternate in [false, true] {
        for text in TEXTS {
            let mut sink = Sink::with_alternate(alternate);
            sink.display_option(Some(text)).unwrap();
            assert_eq!(standard(&Some(Raw(text)), alternate), sink.as_str());
        }
        let mut sink = Sink::with_alternate(alternate);
        sink.display_option(None).unwrap();
        assert_eq!(standard(&None::<Raw>, alternate), sink.as_str());
    }
}

#[test]
fn builders_nest_through_rendered_text() {
    let inner = list(&["1", "2"], true);
    assert_eq!(
        "Foo {\n    bar: [\n        1,\n        2,\n    ],\n}",
        structure("Foo", &[("bar", &inner)], true)
    );
    let inner = list(&["0", "1", "2"], false);
    assert_eq!(
        "Foo { bar: [0, 1, 2] }",
        structure("Foo", &[("bar", &inner)], false)
    );
}
