//! Launcher entries: reading the fields of one, and rewriting its icon line.

use crate::text::{
    chars_of, decode, find, index_of, lemma_index_of_unique, range_is, split, split_ranges,
    text_of, trim, trim_range,
};
use vstd::prelude::*;
use vstd::slice::slice_subrange;
use vstd::string::*;
use vstd::utf8::*;

verus! {

/// One launcher entry, as read from its file.
#[derive(Debug, PartialEq, Eq)]
pub struct DesktopEntry {
    pub entry_path: String,
    pub name: String,
    pub icon: Option<String>,
}

/// An entry, as the contracts speak of it.
pub struct EntryView {
    pub entry_path: Seq<char>,
    pub name: Seq<char>,
    pub icon: Option<Seq<char>>,
}

impl View for DesktopEntry {
    type V = EntryView;

    open spec fn view(&self) -> EntryView {
        EntryView { entry_path: self.entry_path@, name: self.name@, icon: text_of(self.icon) }
    }
}

impl Clone for DesktopEntry {
    fn clone(&self) -> (copy: DesktopEntry)
        ensures
            copy@ == self@,
    {
        DesktopEntry {
            entry_path: self.entry_path.clone(),
            name: self.name.clone(),
            icon: match &self.icon {
                Some(icon) => Some(icon.clone()),
                None => None,
            },
        }
    }
}

/// Why an entry could not be read.
#[derive(Debug, Clone, Copy, PartialEq, Eq)]
pub enum ParseError {
    /// The file could not be opened, or a line of it is not text.
    Unreadable,
    /// The file names no application.
    MissingName,
}

/// Why an entry could not be rewritten.
#[derive(Debug, Clone, Copy, PartialEq, Eq)]
pub enum WriteError {
    /// The file could not be read again, or is not text.
    ReadFailed,
    /// The new contents could not be written.
    WriteFailed,
}

/// What rewriting an entry comes to.
#[derive(Debug, PartialEq, Eq)]
pub enum Rewrite {
    /// The file is to hold these contents.
    Changed(String),
    /// The file already names the icon and stays as it is.
    Unchanged,
}

/// The key of a line: what stands before its first `=`.
pub open spec fn key_of(line: Seq<char>) -> Seq<char> {
    line.take(index_of(line, '=') as int)
}

/// The value of a line: what stands between its first `=` and the next.
pub open spec fn value_of(line: Seq<char>) -> Option<Seq<char>> {
    let i = index_of(line, '=');
    if i >= line.len() {
        None
    } else {
        let rest = line.skip(i as int + 1);
        Some(rest.take(index_of(rest, '=') as int))
    }
}

/// The value that `line` gives to `key`, if it gives one.
pub open spec fn field_of(line: Seq<char>, key: Seq<char>) -> Option<Seq<char>> {
    let t = trim(line);
    if key_of(t) == key {
        value_of(t)
    } else {
        None
    }
}

/// The value of `key` in `lines`: that of the last line that gives it one.
pub open spec fn last_field(lines: Seq<Seq<char>>, key: Seq<char>) -> Option<Seq<char>>
    decreases lines.len(),
{
    if lines.len() == 0 {
        None
    } else {
        match field_of(lines.last(), key) {
            Some(value) => Some(value),
            None => last_field(lines.drop_last(), key),
        }
    }
}

/// The bytes of a file after its header line.
pub open spec fn body_of(contents: Seq<u8>) -> Seq<u8> {
    let i = index_of(contents, 0x0au8);
    if i >= contents.len() {
        Seq::empty()
    } else {
        contents.skip(i as int + 1)
    }
}

/// The entry that a file at `path` holds, where `text` is what follows its
/// header line.
pub open spec fn parse_text(path: Seq<char>, text: Seq<char>) -> Result<EntryView, ParseError> {
    let lines = split(text, '\n');
    match last_field(lines, "Name"@) {
        None => Err(ParseError::MissingName),
        Some(name) => Ok(EntryView { entry_path: path, name, icon: last_field(lines, "Icon"@) }),
    }
}

/// The entry that the file at `path` holds, where `contents` are the bytes
/// read from it, or none where it could not be read.
pub open spec fn parse(path: Seq<char>, contents: Option<Seq<u8>>) -> Result<
    EntryView,
    ParseError,
> {
    match contents {
        None => Err(ParseError::Unreadable),
        Some(bytes) => if !valid_utf8(body_of(bytes)) {
            Err(ParseError::Unreadable)
        } else {
            parse_text(path, decode_utf8(body_of(bytes)))
        },
    }
}

/// The line that takes the place of `line` in a rewritten file.
pub open spec fn rewrite_line(line: Seq<char>, icon: Seq<char>) -> Seq<char> {
    let t = trim(line);
    if t.len() == 0 {
        Seq::empty()
    } else if key_of(t) == "Icon"@ {
        "Icon="@ + icon + "\n"@
    } else {
        t + "\n"@
    }
}

/// The lines that take the place of `lines`, one after the other.
pub open spec fn rewrite_lines(lines: Seq<Seq<char>>, icon: Seq<char>) -> Seq<char>
    decreases lines.len(),
{
    if lines.len() == 0 {
        Seq::empty()
    } else {
        rewrite_lines(lines.drop_last(), icon) + rewrite_line(lines.last(), icon)
    }
}

/// The text of a file with every icon line set to `icon`: blank lines are
/// dropped, the others are trimmed, and one blank line ends the text.
pub open spec fn rewrite(text: Seq<char>, icon: Seq<char>) -> Seq<char> {
    rewrite_lines(split(text, '\n'), icon) + "\n"@
}

/// What setting the icon of `entry` to `icon` comes to, where `contents` are
/// the bytes read from its file, or none where it could not be read: the text
/// that the file is to hold, or none where the file is to stay as it is.
pub open spec fn apply(entry: EntryView, icon: Seq<char>, contents: Option<Seq<u8>>) -> Result<
    Option<Seq<char>>,
    WriteError,
> {
    if entry.icon == Some(icon) {
        Ok(None)
    } else {
        match contents {
            Some(bytes) if valid_utf8(bytes) => Ok(Some(rewrite(decode_utf8(bytes), icon))),
            _ => Err(WriteError::ReadFailed),
        }
    }
}

/// The bytes that were read, where any were.
pub open spec fn bytes_of(contents: Option<&[u8]>) -> Option<Seq<u8>> {
    match contents {
        Some(bytes) => Some(bytes@),
        None => None,
    }
}

/// The new contents that a rewrite asks for, if any.
pub open spec fn written(r: Result<Rewrite, WriteError>) -> Result<Option<Seq<char>>, WriteError> {
    match r {
        Ok(Rewrite::Changed(s)) => Ok(Some(s@)),
        Ok(Rewrite::Unchanged) => Ok(None),
        Err(e) => Err(e),
    }
}

/// The entry that a parse gives, as a view.
pub open spec fn parsed(r: Result<DesktopEntry, ParseError>) -> Result<EntryView, ParseError> {
    match r {
        Ok(entry) => Ok(entry@),
        Err(e) => Err(e),
    }
}

/// The bounds of the line `chars[from..to]` once trimmed, with the end of its
/// key between them.
fn key_bounds(chars: &Vec<char>, from: usize, to: usize) -> (r: (usize, usize, usize))
    requires
        from <= to <= chars.len(),
    ensures
        from <= r.0 <= r.1 <= r.2 <= to,
        chars@.subrange(r.0 as int, r.2 as int) == trim(chars@.subrange(from as int, to as int)),
        chars@.subrange(r.0 as int, r.1 as int) == key_of(
            trim(chars@.subrange(from as int, to as int)),
        ),
        r.1 - r.0 == index_of(trim(chars@.subrange(from as int, to as int)), '='),
{
    let (a, b) = trim_range(chars, from, to);
    let eq = find(chars, a, b, '=');
    assert(chars@.subrange(a as int, b as int).take(eq - a) =~= chars@.subrange(
        a as int,
        eq as int,
    ));
    (a, eq, b)
}

/// The bounds of the value of the trimmed line `chars[a..b]` whose key ends at `eq`.
fn value_bounds(chars: &Vec<char>, a: usize, eq: usize, b: usize) -> (r: Option<(usize, usize)>)
    requires
        a <= eq <= b <= chars.len(),
        eq - a == index_of(chars@.subrange(a as int, b as int), '='),
    ensures
        match r {
            Some((from, to)) => from <= to <= chars.len() && value_of(
                chars@.subrange(a as int, b as int),
            ) == Some(chars@.subrange(from as int, to as int)),
            None => value_of(chars@.subrange(a as int, b as int)) is None,
        },
{
    if eq == b {
        return None;
    }
    let end = find(chars, eq + 1, b, '=');
    proof {
        let line = chars@.subrange(a as int, b as int);
        let rest = line.skip(eq - a + 1);
        assert(rest =~= chars@.subrange(eq + 1, b as int));
        assert(rest.take(end - (eq + 1)) =~= chars@.subrange(eq + 1, end as int));
    }
    Some((eq + 1, end))
}

/// The part of a file after its header line.
fn body(contents: &[u8]) -> (rest: &[u8])
    ensures
        rest@ == body_of(contents@),
{
    let mut i: usize = 0;
    while i < contents.len() && contents[i] != 0x0au8
        invariant
            i <= contents.len(),
            forall|j: int| 0 <= j < i ==> contents[j] != 0x0au8,
        decreases contents.len() - i,
    {
        i += 1;
    }
    proof {
        lemma_index_of_unique(contents@, 0x0au8, i as int);
    }
    if i == contents.len() {
        let rest = slice_subrange(contents, i, i);
        assert(rest@ =~= Seq::<u8>::empty());
        rest
    } else {
        let rest = slice_subrange(contents, i + 1, contents.len());
        assert(rest@ =~= contents@.skip(i + 1));
        rest
    }
}

impl DesktopEntry {
    /// Reads the entry that the file at `path` holds. `contents` are the
    /// bytes read from the file, or none where it could not be read.
    ///
    /// The header line is passed over, whatever it holds. What follows it has
    /// to be text, and is read as `from_text` reads it.
    pub fn from_path(path: &str, contents: Option<&[u8]>) -> (r: Result<DesktopEntry, ParseError>)
        ensures
            parsed(r) == parse(path@, bytes_of(contents)),
    {
        let bytes = match contents {
            Some(bytes) => bytes,
            None => {
                return Err(ParseError::Unreadable);
            },
        };
        match decode(body(bytes)) {
            Some(text) => DesktopEntry::from_text(path, text),
            None => Err(ParseError::Unreadable),
        }
    }

    /// Reads the entry that the file at `path` holds, from the text that
    /// follows its header line.
    ///
    /// Only the lines with the key `Name` or `Icon` count, and the last of
    /// each wins. A line without `=` counts for nothing.
    pub fn from_text(path: &str, text: &str) -> (r: Result<DesktopEntry, ParseError>)
        ensures
            parsed(r) == parse_text(path@, text@),
    {
        let chars = chars_of(text);
        let lines = split_ranges(&chars, '\n');
        let name_key = chars_of("Name");
        let icon_key = chars_of("Icon");
        let ghost all = split(chars@, '\n');
        let mut name: Option<String> = None;
        let mut icon: Option<String> = None;
        let mut i: usize = 0;
        while i < lines.len()
            invariant
                i <= lines.len(),
                chars@ == text@,
                all == split(chars@, '\n'),
                lines.len() == all.len(),
                forall|k: int|
                    0 <= k < lines.len() ==> {
                        &&& (#[trigger] lines[k]).0 <= lines[k].1 <= chars.len()
                        &&& chars@.subrange(lines[k].0 as int, lines[k].1 as int) == all[k]
                    },
                name_key@ == "Name"@,
                icon_key@ == "Icon"@,
                text_of(name) == last_field(all.take(i as int), "Name"@),
                text_of(icon) == last_field(all.take(i as int), "Icon"@),
            decreases lines.len() - i,
        {
            proof {
                assert(all.take(i + 1).drop_last() =~= all.take(i as int));
                assert(all.take(i + 1).last() == all[i as int]);
                reveal_strlit("Name");
                reveal_strlit("Icon");
                assert("Name"@[0] != "Icon"@[0]);
            }
            let (a, eq, b) = key_bounds(&chars, lines[i].0, lines[i].1);
            let is_name = range_is(&chars, a, eq, &name_key);
            let is_icon = range_is(&chars, a, eq, &icon_key);
            if is_name || is_icon {
                if let Some((from, to)) = value_bounds(&chars, a, eq, b) {
                    let value = text.substring_char(from, to).to_owned();
                    if is_name {
                        name = Some(value);
                    } else {
                        icon = Some(value);
                    }
                }
            }
            i += 1;
        }
        assert(all.take(i as int) =~= all);
        match name {
            None => Err(ParseError::MissingName),
            Some(name) => Ok(DesktopEntry { entry_path: path.to_owned(), name, icon }),
        }
    }

    /// Whether the entry already names the icon `icon_name`.
    pub fn has_icon(&self, icon_name: &str) -> (b: bool)
        ensures
            b == (self@.icon == Some(icon_name@)),
    {
        match &self.icon {
            None => false,
            Some(current) => {
                let have = chars_of(current.as_str());
                let want = chars_of(icon_name);
                assert(have@.subrange(0, have@.len() as int) =~= have@);
                range_is(&have, 0, have.len(), &want)
            },
        }
    }

    /// Sets the icon of the entry to `icon_name` in the contents of its
    /// file. `contents` are the bytes read from the file, or none where it
    /// could not be read.
    ///
    /// Where the entry already names that icon, nothing is to be written and
    /// the contents are not looked at. Otherwise the contents have to be text,
    /// and the file is to hold what `set_icon` makes of them.
    pub fn modify_icon(&self, icon_name: &str, contents: Option<&[u8]>) -> (r: Result<
        Rewrite,
        WriteError,
    >)
        ensures
            written(r) == apply(self@, icon_name@, bytes_of(contents)),
            self@.icon == Some(icon_name@) ==> r == Ok::<Rewrite, WriteError>(Rewrite::Unchanged),
    {
        if self.has_icon(icon_name) {
            return Ok(Rewrite::Unchanged);
        }
        let bytes = match contents {
            Some(bytes) => bytes,
            None => {
                return Err(WriteError::ReadFailed);
            },
        };
        match decode(bytes) {
            Some(text) => Ok(Rewrite::Changed(set_icon(text, icon_name))),
            None => Err(WriteError::ReadFailed),
        }
    }
}

/// The text of a file with its icon set to `icon_name`: every line with the
/// key `Icon` is replaced, the other lines are kept, trimmed, blank lines go,
/// and one blank line ends the text.
pub fn set_icon(text: &str, icon_name: &str) -> (out: String)
    ensures
        out@ == rewrite(text@, icon_name@),
{
    let chars = chars_of(text);
    let lines = split_ranges(&chars, '\n');
    let icon_key = chars_of("Icon");
    let ghost all = split(chars@, '\n');
    let mut out = String::new();
    let mut i: usize = 0;
    while i < lines.len()
        invariant
            i <= lines.len(),
            chars@ == text@,
            all == split(chars@, '\n'),
            lines.len() == all.len(),
            forall|k: int|
                0 <= k < lines.len() ==> {
                    &&& (#[trigger] lines[k]).0 <= lines[k].1 <= chars.len()
                    &&& chars@.subrange(lines[k].0 as int, lines[k].1 as int) == all[k]
                },
            icon_key@ == "Icon"@,
            out@ == rewrite_lines(all.take(i as int), icon_name@),
        decreases lines.len() - i,
    {
        proof {
            assert(all.take(i + 1).drop_last() =~= all.take(i as int));
            assert(all.take(i + 1).last() == all[i as int]);
        }
        let ghost before = out@;
        let (a, eq, b) = key_bounds(&chars, lines[i].0, lines[i].1);
        if a == b {
            assert(before + Seq::<char>::empty() =~= before);
        } else if range_is(&chars, a, eq, &icon_key) {
            out.append("Icon=");
            out.append(icon_name);
            out.append("\n");
            assert(out@ =~= before + ("Icon="@ + icon_name@ + "\n"@));
        } else {
            out.append(text.substring_char(a, b));
            out.append("\n");
            assert(out@ =~= before + (chars@.subrange(a as int, b as int) + "\n"@));
        }
        i += 1;
    }
    assert(all.take(i as int) =~= all);
    out.append("\n");
    out
}

} // verus!
