//! Layout builders for lists, sets, maps, structs and tuples.
//!
//! Each builder borrows a sink and writes one part at a time, as the debug
//! builders of the standard library do, except that every part is text that
//! was rendered for display already. On a compact sink the parts stand on one
//! line; on an alternate sink each part stands on a line of its own, indented
//! and closed by a comma.

use vstd::prelude::*;
use crate::sink::{padded, pad_state, lemma_padded_concat, RenderResult, Sink};

verus! {

/// The texts that a slice of string slices holds.
pub open spec fn texts(parts: Seq<&str>) -> Seq<Seq<char>> {
    Seq::new(parts.len(), |i: int| parts[i]@)
}

/// What one entry adds to a list or a set: on a compact sink the entry,
/// behind a comma and a space unless it is the first; on an alternate sink
/// a line feed in front of the first entry, then the entry and a comma,
/// indented, and a line feed.
pub open spec fn entry_layout(entry: Seq<char>, has_fields: bool, alternate: bool) -> Seq<char> {
    if alternate {
        (if has_fields {
            Seq::empty()
        } else {
            "\n"@
        }) + padded(entry + ",\n"@, true)
    } else {
        (if has_fields {
            ", "@
        } else {
            Seq::empty()
        }) + entry
    }
}

/// What a run of entries adds to a list or a set.
pub open spec fn entries_layout(entries: Seq<Seq<char>>, has_fields: bool, alternate: bool) -> Seq<
    char,
>
    decreases entries.len(),
{
    if entries.len() == 0 {
        Seq::empty()
    } else {
        entries_layout(entries.drop_last(), has_fields, alternate) + entry_layout(
            entries.last(),
            has_fields || entries.len() > 1,
            alternate,
        )
    }
}

/// Builds a bracketed list on a sink: `[a, b]`.
pub struct DisplayList<'a> {
    /// The sink written to.
    pub sink: &'a mut Sink,
    /// Whether an entry was written already.
    pub has_fields: bool,
}

impl<'a> DisplayList<'a> {
    /// Adds one entry.
    pub fn entry(&mut self, entry: &str) -> (ret: &mut Self)
        ensures
            ret.sink@ == old(self).sink@ + entry_layout(
                entry@,
                old(self).has_fields,
                old(self).sink.is_alternate(),
            ),
            ret.sink.is_alternate() == old(self).sink.is_alternate(),
            ret.has_fields,
            *final(ret.sink) == *final(old(self).sink),
            *final(ret) == *final(self),
    {
        write_entry(self.sink, entry, self.has_fields);
        self.has_fields = true;
        self
    }

    /// Adds the entries in order.
    pub fn entries(&mut self, entries: &[&str]) -> (ret: &mut Self)
        ensures
            ret.sink@ == old(self).sink@ + entries_layout(
                texts(entries@),
                old(self).has_fields,
                old(self).sink.is_alternate(),
            ),
            ret.sink.is_alternate() == old(self).sink.is_alternate(),
            ret.has_fields == (old(self).has_fields || entries@.len() > 0),
            *final(ret.sink) == *final(old(self).sink),
            *final(ret) == *final(self),
    {
        let has_fields = write_entries(self.sink, entries, self.has_fields);
        self.has_fields = has_fields;
        self
    }

    /// Closes the list with `]`.
    pub fn finish(&mut self) -> (r: RenderResult)
        ensures
            r is Ok,
            final(self).sink@ == old(self).sink@ + "]"@,
            final(self).sink.is_alternate() == old(self).sink.is_alternate(),
            final(self).has_fields == old(self).has_fields,
            *final(final(self).sink) == *final(old(self).sink),
    {
        self.sink.write_str("]")
    }
}

/// Writes `first` and then `second`, indented as one nested text.
fn write_padded_pair(sink: &mut Sink, first: &str, second: &str, on_newline: bool) -> (state: bool)
    ensures
        final(sink)@ == old(sink)@ + padded(first@ + second@, on_newline),
        final(sink).is_alternate() == old(sink).is_alternate(),
        state == pad_state(first@ + second@, on_newline),
{
    let middle = sink.write_padded(first, on_newline);
    let state = sink.write_padded(second, middle);
    proof {
        lemma_padded_concat(first@, second@, on_newline);
        assert(sink@ =~= old(sink)@ + padded(first@ + second@, on_newline));
    }
    state
}

/// Writes one entry of a list or a set.
fn write_entry(sink: &mut Sink, entry: &str, has_fields: bool)
    ensures
        final(sink)@ == old(sink)@ + entry_layout(entry@, has_fields, old(sink).is_alternate()),
        final(sink).is_alternate() == old(sink).is_alternate(),
{
    if sink.alternate() {
        if !has_fields {
            let _ = sink.write_str("\n");
        }
        let _ = write_padded_pair(sink, entry, ",\n", true);
        proof {
            assert(sink@ =~= old(sink)@ + entry_layout(entry@, has_fields, true));
        }
    } else {
        if has_fields {
            let _ = sink.write_str(", ");
        }
        let _ = sink.write_str(entry);
        proof {
            assert(sink@ =~= old(sink)@ + entry_layout(entry@, has_fields, false));
        }
    }
}

/// Writes a run of entries of a list or a set, and says whether the
/// builder has entries after it.
fn write_entries(sink: &mut Sink, entries: &[&str], has_fields: bool) -> (after: bool)
    ensures
        final(sink)@ == old(sink)@ + entries_layout(
            texts(entries@),
            has_fields,
            old(sink).is_alternate(),
        ),
        final(sink).is_alternate() == old(sink).is_alternate(),
        after == (has_fields || entries@.len() > 0),
{
    let ghost all = texts(entries@);
    let ghost alternate = sink.is_alternate();
    let mut seen: bool = has_fields;
    let mut i: usize = 0;
    proof {
        assert(all.take(0) =~= Seq::<Seq<char>>::empty());
        assert(sink@ =~= old(sink)@ + entries_layout(all.take(0), has_fields, alternate));
    }
    while i < entries.len()
        invariant
            i <= entries@.len(),
            all == texts(entries@),
            alternate == old(sink).is_alternate(),
            sink.is_alternate() == alternate,
            sink@ == old(sink)@ + entries_layout(all.take(i as int), has_fields, alternate),
            seen == (has_fields || i > 0),
        decreases entries@.len() - i,
    {
        let ghost before = sink@;
        let ghost done = all.take(i as int);
        let entry = entries[i];
        write_entry(sink, entry, seen);
        proof {
            assert(all.take(i + 1) =~= done.push(entry@));
            lemma_entries_layout_push(done, entry@, has_fields, alternate);
            assert(sink@ =~= old(sink)@ + (entries_layout(done, has_fields, alternate)
                + entry_layout(entry@, seen, alternate)));
        }
        seen = true;
        i += 1;
    }
    proof {
        assert(all.take(i as int) =~= all);
    }
    seen
}

/// Adding one entry behind a run of entries adds its layout behind theirs.
pub proof fn lemma_entries_layout_push(
    entries: Seq<Seq<char>>,
    entry: Seq<char>,
    has_fields: bool,
    alternate: bool,
)
    ensures
        entries_layout(entries.push(entry), has_fields, alternate) == entries_layout(
            entries,
            has_fields,
            alternate,
        ) + entry_layout(entry, has_fields || entries.len() > 0, alternate),
{
    assert(entries.push(entry).drop_last() =~= entries);
}

/// Builds a set in braces on a sink: `{a, b}`.
pub struct DisplaySet<'a> {
    /// The sink written to.
    pub sink: &'a mut Sink,
    /// Whether an entry was written already.
    pub has_fields: bool,
}

impl<'a> DisplaySet<'a> {
    /// Adds one entry.
    pub fn entry(&mut self, entry: &str) -> (ret: &mut Self)
        ensures
            ret.sink@ == old(self).sink@ + entry_layout(
                entry@,
                old(self).has_fields,
                old(self).sink.is_alternate(),
            ),
            ret.sink.is_alternate() == old(self).sink.is_alternate(),
            ret.has_fields,
            *final(ret.sink) == *final(old(self).sink),
            *final(ret) == *final(self),
    {
        write_entry(self.sink, entry, self.has_fields);
        self.has_fields = true;
        self
    }

    /// Adds the entries in order.
    pub fn entries(&mut self, entries: &[&str]) -> (ret: &mut Self)
        ensures
            ret.sink@ == old(self).sink@ + entries_layout(
                texts(entries@),
                old(self).has_fields,
                old(self).sink.is_alternate(),
            ),
            ret.sink.is_alternate() == old(self).sink.is_alternate(),
            ret.has_fields == (old(self).has_fields || entries@.len() > 0),
            *final(ret.sink) == *final(old(self).sink),
            *final(ret) == *final(self),
    {
        let has_fields = write_entries(self.sink, entries, self.has_fields);
        self.has_fields = has_fields;
        self
    }

    /// Closes the set with `}`.
    pub fn finish(&mut self) -> (r: RenderResult)
        ensures
            r is Ok,
            final(self).sink@ == old(self).sink@ + "}"@,
            final(self).sink.is_alternate() == old(self).sink.is_alternate(),
            final(self).has_fields == old(self).has_fields,
            *final(final(self).sink) == *final(old(self).sink),
    {
        self.sink.write_str("}")
    }
}

/// What the key of a map entry adds: the key and `: `, behind the same
/// separator as an entry of a list.
pub open spec fn key_layout(key: Seq<char>, has_fields: bool, alternate: bool) -> Seq<char> {
    if alternate {
        (if has_fields {
            Seq::empty()
        } else {
            "\n"@
        }) + padded(key + ": "@, true)
    } else {
        (if has_fields {
            ", "@
        } else {
            Seq::empty()
        }) + key + ": "@
    }
}

/// What the value of a map entry adds behind its key: on a compact sink the
/// value; on an alternate sink the value and a comma, its further lines
/// indented, and a line feed.
pub open spec fn value_layout(value: Seq<char>, alternate: bool) -> Seq<char> {
    if alternate {
        padded(value + ",\n"@, false)
    } else {
        value
    }
}

/// The keys and values that a slice of pairs holds.
pub open spec fn pair_texts(pairs: Seq<(&str, &str)>) -> Seq<(Seq<char>, Seq<char>)> {
    Seq::new(pairs.len(), |i: int| (pairs[i].0@, pairs[i].1@))
}

/// What a run of whole entries adds to a map.
pub open spec fn pairs_layout(
    pairs: Seq<(Seq<char>, Seq<char>)>,
    has_fields: bool,
    alternate: bool,
) -> Seq<char>
    decreases pairs.len(),
{
    if pairs.len() == 0 {
        Seq::empty()
    } else {
        pairs_layout(pairs.drop_last(), has_fields, alternate) + key_layout(
            pairs.last().0,
            has_fields || pairs.len() > 1,
            alternate,
        ) + value_layout(pairs.last().1, alternate)
    }
}

/// Builds a map in braces on a sink: `{k: v, l: w}`.
///
/// A key must be followed by its value before the next key is given or the
/// map is closed.
pub struct DisplayMap<'a> {
    /// The sink written to.
    pub sink: &'a mut Sink,
    /// Whether a whole entry was written already.
    pub has_fields: bool,
    /// Whether a key waits for its value.
    pub has_key: bool,
}

impl<'a> DisplayMap<'a> {
    /// Adds the key of a new entry.
    pub fn key(&mut self, key: &str) -> (ret: &mut Self)
        requires
            !old(self).has_key,
        ensures
            ret.sink@ == old(self).sink@ + key_layout(
                key@,
                old(self).has_fields,
                old(self).sink.is_alternate(),
            ),
            ret.sink.is_alternate() == old(self).sink.is_alternate(),
            ret.has_fields == old(self).has_fields,
            ret.has_key,
            *final(ret.sink) == *final(old(self).sink),
            *final(ret) == *final(self),
    {
        write_key(self.sink, key, self.has_fields);
        self.has_key = true;
        self
    }

    /// Adds the value of the entry whose key was given last.
    pub fn value(&mut self, value: &str) -> (ret: &mut Self)
        requires
            old(self).has_key,
        ensures
            ret.sink@ == old(self).sink@ + value_layout(value@, old(self).sink.is_alternate()),
            ret.sink.is_alternate() == old(self).sink.is_alternate(),
            ret.has_fields,
            !ret.has_key,
            *final(ret.sink) == *final(old(self).sink),
            *final(ret) == *final(self),
    {
        write_value(self.sink, value);
        self.has_key = false;
        self.has_fields = true;
        self
    }

    /// Adds a whole entry: the key, then the value.
    pub fn entry(&mut self, key: &str, value: &str) -> (ret: &mut Self)
        requires
            !old(self).has_key,
        ensures
            ret.sink@ == old(self).sink@ + key_layout(
                key@,
                old(self).has_fields,
                old(self).sink.is_alternate(),
            ) + value_layout(value@, old(self).sink.is_alternate()),
            ret.sink.is_alternate() == old(self).sink.is_alternate(),
            ret.has_fields,
            !ret.has_key,
            *final(ret.sink) == *final(old(self).sink),
            *final(ret) == *final(self),
    {
        self.key(key).value(value)
    }

    /// Adds the entries in order.
    pub fn entries(&mut self, entries: &[(&str, &str)]) -> (ret: &mut Self)
        requires
            !old(self).has_key,
        ensures
            ret.sink@ == old(self).sink@ + pairs_layout(
                pair_texts(entries@),
                old(self).has_fields,
                old(self).sink.is_alternate(),
            ),
            ret.sink.is_alternate() == old(self).sink.is_alternate(),
            ret.has_fields == (old(self).has_fields || entries@.len() > 0),
            !ret.has_key,
            *final(ret.sink) == *final(old(self).sink),
            *final(ret) == *final(self),
    {
        let has_fields = write_pairs(self.sink, entries, self.has_fields);
        self.has_fields = has_fields;
        self
    }

    /// Closes the map with `}`.
    pub fn finish(&mut self) -> (r: RenderResult)
        requires
            !old(self).has_key,
        ensures
            r is Ok,
            final(self).sink@ == old(self).sink@ + "}"@,
            final(self).sink.is_alternate() == old(self).sink.is_alternate(),
            final(self).has_fields == old(self).has_fields,
            !final(self).has_key,
            *final(final(self).sink) == *final(old(self).sink),
    {
        self.sink.write_str("}")
    }
}

/// Writes a run of whole map entries, and says whether the map has entries
/// after it.
fn write_pairs(sink: &mut Sink, entries: &[(&str, &str)], has_fields: bool) -> (after: bool)
    ensures
        final(sink)@ == old(sink)@ + pairs_layout(
            pair_texts(entries@),
            has_fields,
            old(sink).is_alternate(),
        ),
        final(sink).is_alternate() == old(sink).is_alternate(),
        after == (has_fields || entries@.len() > 0),
{
    let ghost all = pair_texts(entries@);
    let ghost alternate = sink.is_alternate();
    let mut seen: bool = has_fields;
    let mut i: usize = 0;
    proof {
        assert(all.take(0) =~= Seq::<(Seq<char>, Seq<char>)>::empty());
        assert(sink@ =~= old(sink)@ + pairs_layout(all.take(0), has_fields, alternate));
    }
    while i < entries.len()
        invariant
            i <= entries@.len(),
            all == pair_texts(entries@),
            alternate == old(sink).is_alternate(),
            sink.is_alternate() == alternate,
            sink@ == old(sink)@ + pairs_layout(all.take(i as int), has_fields, alternate),
            seen == (has_fields || i > 0),
        decreases entries@.len() - i,
    {
        let ghost done = all.take(i as int);
        let (key, value) = entries[i];
        write_key(sink, key, seen);
        write_value(sink, value);
        proof {
            assert(all.take(i + 1) =~= done.push((key@, value@)));
            lemma_pairs_layout_push(done, key@, value@, has_fields, alternate);
            assert(sink@ =~= old(sink)@ + (pairs_layout(done, has_fields, alternate) + key_layout(
                key@,
                seen,
                alternate,
            ) + value_layout(value@, alternate)));
        }
        seen = true;
        i += 1;
    }
    proof {
        assert(all.take(i as int) =~= all);
    }
    seen
}

/// Adding one entry behind a run of map entries adds its key and value
/// behind theirs.
pub proof fn lemma_pairs_layout_push(
    pairs: Seq<(Seq<char>, Seq<char>)>,
    key: Seq<char>,
    value: Seq<char>,
    has_fields: bool,
    alternate: bool,
)
    ensures
        pairs_layout(pairs.push((key, value)), has_fields, alternate) == pairs_layout(
            pairs,
            has_fields,
            alternate,
        ) + key_layout(key, has_fields || pairs.len() > 0, alternate) + value_layout(
            value,
            alternate,
        ),
{
    assert(pairs.push((key, value)).drop_last() =~= pairs);
}

/// Writes the key of a map entry.
fn write_key(sink: &mut Sink, key: &str, has_fields: bool)
    ensures
        final(sink)@ == old(sink)@ + key_layout(key@, has_fields, old(sink).is_alternate()),
        final(sink).is_alternate() == old(sink).is_alternate(),
{
    if sink.alternate() {
        if !has_fields {
            let _ = sink.write_str("\n");
        }
        let _ = write_padded_pair(sink, key, ": ", true);
        proof {
            assert(sink@ =~= old(sink)@ + key_layout(key@, has_fields, true));
        }
    } else {
        if has_fields {
            let _ = sink.write_str(", ");
        }
        let _ = sink.write_str(key);
        let _ = sink.write_str(": ");
        proof {
            assert(sink@ =~= old(sink)@ + key_layout(key@, has_fields, false));
        }
    }
}

/// Writes the value of a map entry behind its key.
fn write_value(sink: &mut Sink, value: &str)
    ensures
        final(sink)@ == old(sink)@ + value_layout(value@, old(sink).is_alternate()),
        final(sink).is_alternate() == old(sink).is_alternate(),
{
    if sink.alternate() {
        let _ = write_padded_pair(sink, value, ",\n", false);
    } else {
        let _ = sink.write_str(value);
    }
}

/// What one field adds to a struct: its name, `: ` and its value, the first
/// one behind the opening brace and the others behind a separator.
pub open spec fn field_layout(
    name: Seq<char>,
    value: Seq<char>,
    has_fields: bool,
    alternate: bool,
) -> Seq<char> {
    if alternate {
        (if has_fields {
            Seq::empty()
        } else {
            " {\n"@
        }) + padded(name + ": "@ + value + ",\n"@, true)
    } else {
        (if has_fields {
            ", "@
        } else {
            " { "@
        }) + name + ": "@ + value
    }
}

/// What closes a struct: nothing where it has no field, else the closing
/// brace, behind a space on a compact sink.
pub open spec fn struct_end(has_fields: bool, alternate: bool) -> Seq<char> {
    if !has_fields {
        Seq::empty()
    } else if alternate {
        "}"@
    } else {
        " }"@
    }
}

/// Builds a struct with named fields on a sink: `Name { a: 1, b: 2 }`.
pub struct DisplayStruct<'a> {
    /// The sink written to.
    pub sink: &'a mut Sink,
    /// Whether a field was written already.
    pub has_fields: bool,
}

impl<'a> DisplayStruct<'a> {
    /// Adds one field.
    pub fn field(&mut self, name: &str, value: &str) -> (ret: &mut Self)
        ensures
            ret.sink@ == old(self).sink@ + field_layout(
                name@,
                value@,
                old(self).has_fields,
                old(self).sink.is_alternate(),
            ),
            ret.sink.is_alternate() == old(self).sink.is_alternate(),
            ret.has_fields,
            *final(ret.sink) == *final(old(self).sink),
            *final(ret) == *final(self),
    {
        write_field(self.sink, name, value, self.has_fields);
        self.has_fields = true;
        self
    }

    /// Closes the struct.
    pub fn finish(&mut self) -> (r: RenderResult)
        ensures
            r is Ok,
            final(self).sink@ == old(self).sink@ + struct_end(
                old(self).has_fields,
                old(self).sink.is_alternate(),
            ),
            final(self).sink.is_alternate() == old(self).sink.is_alternate(),
            final(self).has_fields == old(self).has_fields,
            *final(final(self).sink) == *final(old(self).sink),
    {
        if self.has_fields {
            if self.sink.alternate() {
                self.sink.write_str("}")
            } else {
                self.sink.write_str(" }")
            }
        } else {
            proof {
                assert(self.sink@ + Seq::<char>::empty() =~= self.sink@);
            }
            Ok(())
        }
    }
}

/// Writes one field of a struct.
fn write_field(sink: &mut Sink, name: &str, value: &str, has_fields: bool)
    ensures
        final(sink)@ == old(sink)@ + field_layout(
            name@,
            value@,
            has_fields,
            old(sink).is_alternate(),
        ),
        final(sink).is_alternate() == old(sink).is_alternate(),
{
    if sink.alternate() {
        if !has_fields {
            let _ = sink.write_str(" {\n");
        }
        let ghost mid = sink@;
        let state = write_padded_pair(sink, name, ": ", true);
        let _ = write_padded_pair(sink, value, ",\n", state);
        proof {
            let head = name@ + ": "@;
            let tail = value@ + ",\n"@;
            lemma_padded_concat(head, tail, true);
            assert(head + tail =~= name@ + ": "@ + value@ + ",\n"@);
            assert(sink@ =~= mid + padded(name@ + ": "@ + value@ + ",\n"@, true));
            assert(sink@ =~= old(sink)@ + field_layout(name@, value@, has_fields, true));
        }
    } else {
        if has_fields {
            let _ = sink.write_str(", ");
        } else {
            let _ = sink.write_str(" { ");
        }
        let ghost mid = sink@;
        let _ = sink.write_str(name);
        let _ = sink.write_str(": ");
        let _ = sink.write_str(value);
        proof {
            assert(sink@ =~= mid + name@ + ": "@ + value@);
            assert(sink@ =~= old(sink)@ + field_layout(name@, value@, has_fields, false));
        }
    }
}

/// Writes one field of a tuple.
fn write_tuple_field(sink: &mut Sink, value: &str, first: bool)
    ensures
        final(sink)@ == old(sink)@ + tuple_field_layout(value@, first, old(sink).is_alternate()),
        final(sink).is_alternate() == old(sink).is_alternate(),
{
    if sink.alternate() {
        if first {
            let _ = sink.write_str("(\n");
        }
        let _ = write_padded_pair(sink, value, ",\n", true);
        proof {
            assert(sink@ =~= old(sink)@ + tuple_field_layout(value@, first, true));
        }
    } else {
        if first {
            let _ = sink.write_str("(");
        } else {
            let _ = sink.write_str(", ");
        }
        let _ = sink.write_str(value);
        proof {
            assert(sink@ =~= old(sink)@ + tuple_field_layout(value@, first, false));
        }
    }
}

/// What one field adds to a tuple: its value, the first one behind the
/// opening parenthesis and the others behind a separator.
pub open spec fn tuple_field_layout(value: Seq<char>, first: bool, alternate: bool) -> Seq<char> {
    if alternate {
        (if first {
            "(\n"@
        } else {
            Seq::empty()
        }) + padded(value + ",\n"@, true)
    } else {
        (if first {
            "("@
        } else {
            ", "@
        }) + value
    }
}

/// What closes a tuple of `fields` fields: nothing where it has none, else
/// the closing parenthesis. A compact tuple without a name and with one
/// field gets a comma in front of it, as a one-element tuple is written.
pub open spec fn tuple_end(fields: nat, empty_name: bool, alternate: bool) -> Seq<char> {
    if fields == 0 {
        Seq::empty()
    } else if fields == 1 && empty_name && !alternate {
        ",)"@
    } else {
        ")"@
    }
}

/// Builds a tuple on a sink: `Name(a, b)`.
pub struct DisplayTuple<'a> {
    /// The sink written to.
    pub sink: &'a mut Sink,
    /// The number of fields written so far.
    pub fields: usize,
    /// Whether the tuple has no name.
    pub empty_name: bool,
}

impl<'a> DisplayTuple<'a> {
    /// Adds one field.
    pub fn field(&mut self, value: &str) -> (ret: &mut Self)
        requires
            old(self).fields < usize::MAX,
        ensures
            ret.sink@ == old(self).sink@ + tuple_field_layout(
                value@,
                old(self).fields == 0,
                old(self).sink.is_alternate(),
            ),
            ret.sink.is_alternate() == old(self).sink.is_alternate(),
            ret.fields == old(self).fields + 1,
            ret.empty_name == old(self).empty_name,
            *final(ret.sink) == *final(old(self).sink),
            *final(ret) == *final(self),
    {
        write_tuple_field(self.sink, value, self.fields == 0);
        self.fields = self.fields + 1;
        self
    }

    /// Closes the tuple.
    pub fn finish(&mut self) -> (r: RenderResult)
        ensures
            r is Ok,
            final(self).sink@ == old(self).sink@ + tuple_end(
                old(self).fields as nat,
                old(self).empty_name,
                old(self).sink.is_alternate(),
            ),
            final(self).sink.is_alternate() == old(self).sink.is_alternate(),
            final(self).fields == old(self).fields,
            final(self).empty_name == old(self).empty_name,
            *final(final(self).sink) == *final(old(self).sink),
    {
        if self.fields > 0 {
            if self.fields == 1 && self.empty_name && !self.sink.alternate() {
                self.sink.write_str(",)")
            } else {
                self.sink.write_str(")")
            }
        } else {
            proof {
                assert(self.sink@ + Seq::<char>::empty() =~= self.sink@);
            }
            Ok(())
        }
    }
}

/// What `display_option` adds: `Some` with the value as its one field, or
/// `None`.
pub open spec fn option_layout(option: Option<Seq<char>>, alternate: bool) -> Seq<char> {
    match option {
        Some(value) => "Some"@ + tuple_field_layout(value, true, alternate) + ")"@,
        None => "None"@,
    }
}

/// The layout builders, as methods of what they write to.
pub trait FormatterExt {
    /// Opens a list with `[`.
    fn display_list<'b>(&'b mut self) -> DisplayList<'b>;

    /// Opens a map with `{`.
    fn display_map<'b>(&'b mut self) -> DisplayMap<'b>;

    /// Opens a set with `{`.
    fn display_set<'b>(&'b mut self) -> DisplaySet<'b>;

    /// Opens a struct with its name.
    fn display_struct<'b>(&'b mut self, name: &str) -> DisplayStruct<'b>;

    /// Opens a tuple with its name.
    fn display_tuple<'b>(&'b mut self, name: &str) -> DisplayTuple<'b>;

    /// Writes an optional value as a tuple named `Some` or as `None`.
    fn display_option(&mut self, option: Option<&str>) -> RenderResult;
}

impl FormatterExt for Sink {
    fn display_list<'b>(&'b mut self) -> (list: DisplayList<'b>)
        ensures
            list.sink@ == old(self)@ + "["@,
            list.sink.is_alternate() == old(self).is_alternate(),
            !list.has_fields,
            *final(list.sink) == *final(self),
    {
        let _ = self.write_str("[");
        DisplayList { sink: self, has_fields: false }
    }

    fn display_map<'b>(&'b mut self) -> (map: DisplayMap<'b>)
        ensures
            map.sink@ == old(self)@ + "{"@,
            map.sink.is_alternate() == old(self).is_alternate(),
            !map.has_fields,
            !map.has_key,
            *final(map.sink) == *final(self),
    {
        let _ = self.write_str("{");
        DisplayMap { sink: self, has_fields: false, has_key: false }
    }

    fn display_set<'b>(&'b mut self) -> (set: DisplaySet<'b>)
        ensures
            set.sink@ == old(self)@ + "{"@,
            set.sink.is_alternate() == old(self).is_alternate(),
            !set.has_fields,
            *final(set.sink) == *final(self),
    {
        let _ = self.write_str("{");
        DisplaySet { sink: self, has_fields: false }
    }

    fn display_struct<'b>(&'b mut self, name: &str) -> (builder: DisplayStruct<'b>)
        ensures
            builder.sink@ == old(self)@ + name@,
            builder.sink.is_alternate() == old(self).is_alternate(),
            !builder.has_fields,
            *final(builder.sink) == *final(self),
    {
        let _ = self.write_str(name);
        DisplayStruct { sink: self, has_fields: false }
    }

    fn display_tuple<'b>(&'b mut self, name: &str) -> (builder: DisplayTuple<'b>)
        ensures
            builder.sink@ == old(self)@ + name@,
            builder.sink.is_alternate() == old(self).is_alternate(),
            builder.fields == 0,
            builder.empty_name == (name@.len() == 0),
            *final(builder.sink) == *final(self),
    {
        let _ = self.write_str(name);
        DisplayTuple { sink: self, fields: 0, empty_name: name.is_empty() }
    }

    fn display_option(&mut self, option: Option<&str>) -> (r: RenderResult)
        ensures
            r is Ok,
            final(self)@ == old(self)@ + option_layout(
                match option {
                    Some(value) => Some(value@),
                    None => None,
                },
                old(self).is_alternate(),
            ),
            final(self).is_alternate() == old(self).is_alternate(),
    {
        match option {
            Some(value) => {
                proof {
                    reveal_strlit("Some");
                }
                let r = self.display_tuple("Some").field(value).finish();
                proof {
                    assert(self@ =~= old(self)@ + option_layout(
                        Some(value@),
                        old(self).is_alternate(),
                    ));
                }
                r
            },
            None => self.display_tuple("None").finish(),
        }
    }
}

} // verus!
