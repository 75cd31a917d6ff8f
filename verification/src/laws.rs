//! What holds of reading, resolving and rewriting taken together.

use crate::app::{advance, initial, phase, step, AppView, Phase, Stage};
use crate::cli::CommandView;
use crate::config::{
    first_variant, is_fallback, keyed, last_fallback, pick, resolve, select, ResolutionView,
    RuleView, VariantView,
};
use crate::desktop::{
    apply, body_of, field_of, key_of, last_field, parse, rewrite, rewrite_line, rewrite_lines,
    EntryView, ParseError, WriteError,
};
use crate::protocol::{touched, ActionView, ReplyView};
use crate::text::{
    free_of, index_of, is_substring, is_trimmed, is_whitespace, lemma_index_of_unique,
    lemma_split_at, lemma_split_pieces, lemma_trim, lemma_trim_end_at, lemma_trim_of_trimmed,
    split, trim, trim_end, trim_start,
};
use crate::watch::{candidates, is_candidate, PathView};
use vstd::prelude::*;
use vstd::utf8::*;

verus! {

/// The first rule whose key occurs in the name decides, whatever the rules
/// after it hold, keys compared in lowercase or as written.
pub proof fn lemma_first_match_decides(rules: Seq<RuleView>, name: Seq<char>, fold: bool, i: int)
    requires
        0 <= i < rules.len(),
        is_substring(keyed(rules[i].match_key, fold), name),
        forall|j: int|
            0 <= j < i ==> !is_substring(keyed(#[trigger] rules[j].match_key, fold), name),
    ensures
        select(rules, name, fold) == pick(rules[i].resolution, name, fold),
    decreases i,
{
    if i > 0 {
        let rest = rules.drop_first();
        assert(!is_substring(keyed(rules[0].match_key, fold), name));
        assert(rest[i - 1] == rules[i]);
        assert forall|j: int| 0 <= j < i - 1 implies !is_substring(
            keyed(#[trigger] rest[j].match_key, fold),
            name,
        ) by {
            assert(rest[j] == rules[j + 1]);
        }
        lemma_first_match_decides(rest, name, fold, i - 1);
    }
}

/// A name gets no icon from the rules where it holds the key of none.
pub proof fn lemma_no_match(rules: Seq<RuleView>, name: Seq<char>, fold: bool)
    requires
        forall|j: int|
            0 <= j < rules.len() ==> !is_substring(
                keyed(#[trigger] rules[j].match_key, fold),
                name,
            ),
    ensures
        select(rules, name, fold) is None,
    decreases rules.len(),
{
    if rules.len() > 0 {
        let rest = rules.drop_first();
        assert(!is_substring(keyed(rules[0].match_key, fold), name));
        assert forall|j: int| 0 <= j < rest.len() implies !is_substring(
            keyed(#[trigger] rest[j].match_key, fold),
            name,
        ) by {
            assert(rest[j] == rules[j + 1]);
        }
        lemma_no_match(rest, name, fold);
    }
}

/// No variant applies to a name that holds the sub-match of none.
pub proof fn lemma_no_variant_applies(variants: Seq<VariantView>, name: Seq<char>, fold: bool)
    requires
        forall|j: int|
            0 <= j < variants.len() && !is_fallback(#[trigger] variants[j]) ==> !is_substring(
                keyed(variants[j].sub_match->0, fold),
                name,
            ),
    ensures
        first_variant(variants, name, fold) is None,
    decreases variants.len(),
{
    if variants.len() > 0 {
        let rest = variants.drop_first();
        assert(variants[0] == variants.first());
        assert forall|j: int| 0 <= j < rest.len() && !is_fallback(
            #[trigger] rest[j],
        ) implies !is_substring(keyed(rest[j].sub_match->0, fold), name) by {
            assert(rest[j] == variants[j + 1]);
        }
        lemma_no_variant_applies(rest, name, fold);
    }
}

/// The variants have a fallback exactly where one of them is a fallback.
pub proof fn lemma_fallback_exists(variants: Seq<VariantView>)
    ensures
        last_fallback(variants) is Some <==> exists|j: int|
            0 <= j < variants.len() && is_fallback(#[trigger] variants[j]),
    decreases variants.len(),
{
    if variants.len() > 0 {
        let init = variants.drop_last();
        lemma_fallback_exists(init);
        if is_fallback(variants.last()) {
            assert(is_fallback(variants[variants.len() - 1]));
        } else if last_fallback(init) is Some {
            let j = choose|j: int| 0 <= j < init.len() && is_fallback(#[trigger] init[j]);
            assert(variants[j] == init[j]);
        } else if exists|j: int| 0 <= j < variants.len() && is_fallback(#[trigger] variants[j]) {
            let j = choose|j: int| 0 <= j < variants.len() && is_fallback(#[trigger] variants[j]);
            assert(init[j] == variants[j]);
        }
    }
}

/// Where no variant of the deciding rule applies, its fallback gives the
/// icon: a variant without a sub-match, or with the sub-match `default` as
/// written. Where the rule has no such variant either, the name gets no icon.
pub proof fn lemma_fallback_decides(
    rules: Seq<RuleView>,
    name: Seq<char>,
    fold: bool,
    i: int,
    variants: Seq<VariantView>,
)
    requires
        0 <= i < rules.len(),
        is_substring(keyed(rules[i].match_key, fold), name),
        forall|j: int|
            0 <= j < i ==> !is_substring(keyed(#[trigger] rules[j].match_key, fold), name),
        rules[i].resolution == ResolutionView::Variants(variants),
        forall|j: int|
            0 <= j < variants.len() && !is_fallback(#[trigger] variants[j]) ==> !is_substring(
                keyed(variants[j].sub_match->0, fold),
                name,
            ),
    ensures
        select(rules, name, fold) == last_fallback(variants),
        select(rules, name, fold) is None <==> forall|j: int|
            0 <= j < variants.len() ==> !is_fallback(#[trigger] variants[j]),
{
    lemma_first_match_decides(rules, name, fold, i);
    lemma_no_variant_applies(variants, name, fold);
    lemma_fallback_exists(variants);
}

/// A key has no value exactly where no line gives it one.
pub proof fn lemma_last_field_none(lines: Seq<Seq<char>>, key: Seq<char>)
    ensures
        last_field(lines, key) is None <==> forall|i: int|
            0 <= i < lines.len() ==> field_of(#[trigger] lines[i], key) is None,
    decreases lines.len(),
{
    if lines.len() > 0 {
        let init = lines.drop_last();
        lemma_last_field_none(init, key);
        if last_field(lines, key) is None {
            assert forall|i: int| 0 <= i < lines.len() implies field_of(
                #[trigger] lines[i],
                key,
            ) is None by {
                if i < init.len() {
                    assert(lines[i] == init[i]);
                }
            }
        } else if field_of(lines.last(), key) is None {
            let i = choose|i: int| 0 <= i < init.len() && !(field_of(#[trigger] init[i], key) is None);
            assert(lines[i] == init[i]);
        }
    }
}

/// Of the lines that give a key a value, the last decides.
pub proof fn lemma_last_field_is_last(lines: Seq<Seq<char>>, key: Seq<char>, i: int)
    requires
        0 <= i < lines.len(),
        field_of(lines[i], key) is Some,
        forall|j: int| i < j < lines.len() ==> field_of(#[trigger] lines[j], key) is None,
    ensures
        last_field(lines, key) == field_of(lines[i], key),
    decreases lines.len(),
{
    if i < lines.len() - 1 {
        let init = lines.drop_last();
        assert(init[i] == lines[i]);
        assert forall|j: int| i < j < init.len() implies field_of(#[trigger] init[j], key) is None by {
            assert(init[j] == lines[j]);
        }
        lemma_last_field_is_last(init, key, i);
    }
}

/// A file in which no line after the header names the application holds no entry.
pub proof fn lemma_missing_name(path: Seq<char>, contents: Seq<u8>)
    requires
        valid_utf8(body_of(contents)),
        forall|i: int|
            0 <= i < split(decode_utf8(body_of(contents)), '\n').len() ==> field_of(
                #[trigger] split(decode_utf8(body_of(contents)), '\n')[i],
                "Name"@,
            ) is None,
    ensures
        parse(path, Some(contents)) == Err::<EntryView, ParseError>(ParseError::MissingName),
{
    lemma_last_field_none(split(decode_utf8(body_of(contents)), '\n'), "Name"@);
}

/// Where several lines name the application, the entry has the name that
/// the last of them gives.
pub proof fn lemma_last_name_wins(path: Seq<char>, contents: Seq<u8>, i: int)
    requires
        valid_utf8(body_of(contents)),
        0 <= i < split(decode_utf8(body_of(contents)), '\n').len(),
        field_of(split(decode_utf8(body_of(contents)), '\n')[i], "Name"@) is Some,
        forall|j: int|
            i < j < split(decode_utf8(body_of(contents)), '\n').len() ==> field_of(
                #[trigger] split(decode_utf8(body_of(contents)), '\n')[j],
                "Name"@,
            ) is None,
    ensures
        parse(path, Some(contents)) is Ok,
        Some(parse(path, Some(contents))->Ok_0.name) == field_of(
            split(decode_utf8(body_of(contents)), '\n')[i],
            "Name"@,
        ),
{
    lemma_last_field_is_last(split(decode_utf8(body_of(contents)), '\n'), "Name"@, i);
}

/// The lines of a file that are not blank, each trimmed.
pub open spec fn entries_of(lines: Seq<Seq<char>>) -> Seq<Seq<char>>
    decreases lines.len(),
{
    if lines.len() == 0 {
        Seq::empty()
    } else if trim(lines.last()).len() == 0 {
        entries_of(lines.drop_last())
    } else {
        entries_of(lines.drop_last()).push(trim(lines.last()))
    }
}

/// The lines of a text that are not blank, each trimmed.
pub open spec fn entries(text: Seq<char>) -> Seq<Seq<char>> {
    entries_of(split(text, '\n'))
}

/// A trimmed line as it stands once the icon is set: an icon line names
/// `icon`, any other line is itself.
pub open spec fn with_icon(line: Seq<char>, icon: Seq<char>) -> Seq<char> {
    if key_of(line) == "Icon"@ {
        "Icon="@ + icon
    } else {
        line
    }
}

/// Whether a text has a line with the key `Icon`.
pub open spec fn has_icon_line(text: Seq<char>) -> bool {
    exists|i: int| 0 <= i < entries(text).len() && key_of(#[trigger] entries(text)[i]) == "Icon"@
}

/// Whether an icon name stands on one line and ends it: it holds no line
/// break and does not end in whitespace.
pub open spec fn fits_on_line(icon: Seq<char>) -> bool {
    free_of(icon, '\n') && (icon.len() > 0 ==> !is_whitespace(icon.last()))
}

/// Whether a line can stand in a file and be read back as itself.
spec fn is_sound(line: Seq<char>) -> bool {
    line.len() > 0 && is_trimmed(line) && free_of(line, '\n')
}

/// The text of a file that holds `lines`.
spec fn render(lines: Seq<Seq<char>>) -> Seq<char>
    decreases lines.len(),
{
    if lines.len() == 0 {
        Seq::empty()
    } else {
        render(lines.drop_last()) + lines.last() + "\n"@
    }
}

/// The rewritten lines are the entries with the icon set, one per line.
proof fn lemma_rewrite_renders(lines: Seq<Seq<char>>, icon: Seq<char>)
    ensures
        rewrite_lines(lines, icon) == render(
            entries_of(lines).map_values(|l: Seq<char>| with_icon(l, icon)),
        ),
    decreases lines.len(),
{
    let set = |l: Seq<char>| with_icon(l, icon);
    if lines.len() == 0 {
        assert(entries_of(lines).map_values(set) =~= Seq::<Seq<char>>::empty());
    } else {
        let init = lines.drop_last();
        lemma_rewrite_renders(init, icon);
        let t = trim(lines.last());
        if t.len() == 0 {
            assert(rewrite_lines(init, icon) + Seq::<char>::empty() =~= rewrite_lines(init, icon));
        } else {
            let now = entries_of(lines).map_values(set);
            assert(now.drop_last() =~= entries_of(init).map_values(set));
            assert(now.last() == with_icon(t, icon));
            assert(rewrite_line(lines.last(), icon) =~= with_icon(t, icon) + "\n"@);
            assert(render(now) =~= rewrite_lines(init, icon) + rewrite_line(lines.last(), icon));
        }
    }
}

/// A file that holds lines without a line break in them splits into those
/// lines and what follows them.
proof fn lemma_split_render(lines: Seq<Seq<char>>, rest: Seq<char>)
    requires
        forall|i: int| 0 <= i < lines.len() ==> free_of(#[trigger] lines[i], '\n'),
    ensures
        split(render(lines) + rest, '\n') == lines + split(rest, '\n'),
    decreases lines.len(),
{
    reveal_strlit("\n");
    if lines.len() == 0 {
        assert(render(lines) + rest =~= rest);
        assert(lines + split(rest, '\n') =~= split(rest, '\n'));
    } else {
        let init = lines.drop_last();
        let last = lines.last();
        let tail = last + seq!['\n'] + rest;
        assert("\n"@ =~= seq!['\n']);
        assert(render(lines) + rest =~= render(init) + tail);
        lemma_split_render(init, tail);
        lemma_split_at(last, '\n', rest);
        assert(init + (seq![last] + split(rest, '\n')) =~= lines + split(rest, '\n'));
    }
}

/// Every entry is a sound line.
proof fn lemma_entries_sound(lines: Seq<Seq<char>>)
    requires
        forall|i: int| 0 <= i < lines.len() ==> free_of(#[trigger] lines[i], '\n'),
    ensures
        forall|i: int| 0 <= i < entries_of(lines).len() ==> is_sound(#[trigger] entries_of(lines)[i]),
    decreases lines.len(),
{
    if lines.len() > 0 {
        let init = lines.drop_last();
        lemma_entries_sound(init);
        lemma_trim(lines.last(), '\n');
        assert forall|i: int| 0 <= i < entries_of(lines).len() implies is_sound(
            #[trigger] entries_of(lines)[i],
        ) by {
            if i < entries_of(init).len() {
                assert(entries_of(lines)[i] == entries_of(init)[i]);
            }
        }
    }
}

/// Rewriting sets the icon and keeps the rest. The rewritten text, cut at
/// its line breaks, is the lines of the text that are not blank, each
/// trimmed, with every icon line replaced by `Icon=` and the new icon as it
/// is given, and the empty line that ends the text. This holds unless the
/// text has an icon line and the icon name holds a line break.
pub proof fn lemma_rewrite_sets_icon(text: Seq<char>, icon: Seq<char>)
    requires
        has_icon_line(text) ==> free_of(icon, '\n'),
    ensures
        split(rewrite(text, icon), '\n') == entries(text).map_values(
            |l: Seq<char>| with_icon(l, icon),
        ) + seq![Seq::<char>::empty(), Seq::<char>::empty()],
{
    reveal_strlit("\n");
    reveal_strlit("Icon=");
    let lines = split(text, '\n');
    let kept = entries_of(lines);
    let now = kept.map_values(|l: Seq<char>| with_icon(l, icon));
    lemma_split_pieces(text, '\n');
    lemma_entries_sound(lines);
    assert forall|i: int| 0 <= i < now.len() implies free_of(#[trigger] now[i], '\n') by {
        assert(is_sound(kept[i]));
        if key_of(kept[i]) == "Icon"@ {
            assert(key_of(entries(text)[i]) == "Icon"@);
            let line = "Icon="@ + icon;
            assert forall|k: int| 0 <= k < line.len() implies line[k] != '\n' by {
                if k >= 5 {
                    assert(line[k] == icon[k - 5]);
                }
            }
        }
    }
    lemma_rewrite_renders(lines, icon);
    lemma_split_render(now, "\n"@);
    assert("\n"@ =~= seq!['\n']);
    lemma_split_at(Seq::<char>::empty(), '\n', Seq::<char>::empty());
    assert(Seq::<char>::empty() + seq!['\n'] + Seq::<char>::empty() =~= seq!['\n']);
    assert(split(Seq::<char>::empty(), '\n') =~= seq![Seq::<char>::empty()]);
    assert(seq![Seq::<char>::empty()] + seq![Seq::<char>::empty()] =~= seq![
        Seq::<char>::empty(),
        Seq::<char>::empty(),
    ]);
}

/// Blank lines and the whitespace around a line do not count for a field.
proof fn lemma_last_field_of_entries(lines: Seq<Seq<char>>, key: Seq<char>)
    requires
        key.len() > 0,
    ensures
        last_field(entries_of(lines), key) == last_field(lines, key),
    decreases lines.len(),
{
    if lines.len() > 0 {
        lemma_last_field_of_entries(lines.drop_last(), key);
        let t = trim(lines.last());
        lemma_trim(lines.last(), '\n');
        lemma_trim_of_trimmed(t);
        if t.len() > 0 {
            let kept = entries_of(lines);
            assert(kept.drop_last() =~= entries_of(lines.drop_last()));
            assert(kept.last() == t);
        } else {
            assert(key_of(t) =~= Seq::<char>::empty());
        }
    }
}

/// The icon that a line `Icon=` with the name `icon` gives on reading: the
/// name without the whitespace it ends with, up to its first `=`.
pub open spec fn read_back(icon: Seq<char>) -> Seq<char> {
    trim_end(icon).take(index_of(trim_end(icon), '=') as int)
}

/// Trimming an icon line cuts the whitespace that the icon name ends with.
proof fn lemma_trim_icon_line(icon: Seq<char>)
    ensures
        trim("Icon="@ + icon) == "Icon="@ + trim_end(icon),
    decreases icon.len(),
{
    reveal_strlit("Icon=");
    let line = "Icon="@ + icon;
    assert(line.first() == 'I');
    assert(trim_start(line) == line);
    if icon.len() > 0 && is_whitespace(icon.last()) {
        assert(line.last() == icon.last());
        assert(line.drop_last() =~= "Icon="@ + icon.drop_last());
        lemma_trim_icon_line(icon.drop_last());
        assert(trim_start("Icon="@ + icon.drop_last()) == "Icon="@ + icon.drop_last());
    } else {
        assert(icon.len() > 0 ==> line.last() == icon.last());
        assert(icon.len() == 0 ==> line.last() == '=');
    }
}

/// What the lines give to the keys `Icon` and `Name` once the icon is set:
/// the new icon as it reads back, where there is an icon line, and the name
/// as before.
proof fn lemma_fields_with_icon(kept: Seq<Seq<char>>, icon: Seq<char>)
    requires
        forall|i: int| 0 <= i < kept.len() ==> is_sound(#[trigger] kept[i]),
    ensures
        (exists|i: int| 0 <= i < kept.len() && key_of(#[trigger] kept[i]) == "Icon"@) ==> last_field(
            kept.map_values(|l: Seq<char>| with_icon(l, icon)),
            "Icon"@,
        ) == Some(read_back(icon)),
        last_field(kept.map_values(|l: Seq<char>| with_icon(l, icon)), "Name"@) == last_field(
            kept,
            "Name"@,
        ),
    decreases kept.len(),
{
    reveal_strlit("Icon=");
    reveal_strlit("Icon");
    reveal_strlit("Name");
    let now = kept.map_values(|l: Seq<char>| with_icon(l, icon));
    if kept.len() > 0 {
        let init = kept.drop_last();
        let last = kept.last();
        lemma_fields_with_icon(init, icon);
        assert(now.drop_last() =~= init.map_values(|l: Seq<char>| with_icon(l, icon)));
        assert(now.last() == with_icon(last, icon));
        lemma_trim_of_trimmed(last);
        if key_of(last) == "Icon"@ {
            let line = "Icon="@ + trim_end(icon);
            lemma_trim_icon_line(icon);
            lemma_index_of_unique(line, '=', 4);
            assert(key_of(line) =~= "Icon"@);
            assert(line.skip(5) =~= trim_end(icon));
            assert(field_of("Icon="@ + icon, "Icon"@) == Some(read_back(icon)));
            assert("Icon"@[0] != "Name"@[0]);
            assert(field_of("Icon="@ + icon, "Name"@) is None);
            assert(field_of(last, "Name"@) is None);
        } else {
            if exists|i: int| 0 <= i < kept.len() && key_of(#[trigger] kept[i]) == "Icon"@ {
                let i = choose|i: int| 0 <= i < kept.len() && key_of(#[trigger] kept[i]) == "Icon"@;
                assert(init[i] == kept[i]);
            }
        }
    }
}

/// The empty pieces at the end of a text count for no field.
proof fn lemma_last_field_before_blanks(lines: Seq<Seq<char>>, key: Seq<char>)
    requires
        key.len() > 0,
    ensures
        last_field(lines + seq![Seq::<char>::empty(), Seq::<char>::empty()], key) == last_field(
            lines,
            key,
        ),
{
    let blank = Seq::<char>::empty();
    let all = lines + seq![blank, blank];
    let one = lines.push(blank);
    assert(trim(blank) =~= blank);
    assert(key_of(blank) =~= blank);
    assert(all.last() == blank);
    assert(all.drop_last() =~= one);
    assert(one.last() == blank);
    assert(one.drop_last() =~= lines);
    assert(field_of(blank, key) is None);
    assert(last_field(one, key) == last_field(lines, key));
    assert(last_field(all, key) == last_field(one, key));
}

/// A rewritten text reads back with the new icon and the old name. Where
/// the text has an icon line, the lines of the rewritten text give to the
/// key `Icon` the new icon as `read_back` has it: the icon itself, where it
/// holds no `=` and does not end in whitespace. To the key `Name` they give
/// what the lines of the text gave it. This holds unless the text has an
/// icon line and the icon name holds a line break.
pub proof fn lemma_rewrite_reads_back(text: Seq<char>, icon: Seq<char>)
    requires
        has_icon_line(text) ==> free_of(icon, '\n'),
    ensures
        has_icon_line(text) ==> last_field(split(rewrite(text, icon), '\n'), "Icon"@) == Some(
            read_back(icon),
        ),
        last_field(split(rewrite(text, icon), '\n'), "Name"@) == last_field(
            split(text, '\n'),
            "Name"@,
        ),
        fits_on_line(icon) && free_of(icon, '=') ==> read_back(icon) == icon,
{
    reveal_strlit("Icon");
    reveal_strlit("Name");
    let kept = entries(text);
    let now = kept.map_values(|l: Seq<char>| with_icon(l, icon));
    lemma_rewrite_sets_icon(text, icon);
    lemma_split_pieces(text, '\n');
    lemma_entries_sound(split(text, '\n'));
    lemma_fields_with_icon(kept, icon);
    lemma_last_field_before_blanks(now, "Icon"@);
    lemma_last_field_before_blanks(now, "Name"@);
    lemma_last_field_of_entries(split(text, '\n'), "Name"@);
    if fits_on_line(icon) && free_of(icon, '=') {
        lemma_trim_end_at(icon, icon.len() as int);
        assert(icon.take(icon.len() as int) =~= icon);
        lemma_index_of_unique(icon, '=', icon.len() as int);
    }
}

/// An entry whose icon is the one that the rules give to its name is left
/// alone: nothing is to be written, whatever its file holds.
pub proof fn lemma_resolved_entry_unchanged(
    rules: Seq<RuleView>,
    entry: EntryView,
    contents: Option<Seq<u8>>,
)
    requires
        entry.icon is Some,
        resolve(rules, entry.name) == entry.icon,
    ensures
        apply(entry, resolve(rules, entry.name)->0, contents) == Ok::<
            Option<Seq<char>>,
            WriteError,
        >(None),
{
}

/// Whether a run at this stage is busy with a file.
pub open spec fn at_file(stage: Stage) -> bool {
    stage == Stage::Probing || stage == Stage::Parsing || stage == Stage::Rereading || stage
        == Stage::Writing
}

/// What holds of a run at every moment: the files that it is busy with or
/// has yet to go over belong to the vendor's tools, it waits for
/// notifications only once the watch is registered, and before that it is
/// starting up or in its first pass. A run that was given up never watched.
pub open spec fn consistent(s: AppView) -> bool {
    &&& forall|i: int| 0 <= i < s.pending.len() ==> is_candidate(#[trigger] s.pending[i].file_name)
    &&& at_file(s.stage) ==> is_candidate(s.current.file_name)
    &&& s.stage == Stage::Receiving ==> s.watching
    &&& s.watching ==> at_file(s.stage) || s.stage == Stage::Receiving || s.stage == Stage::Stopped
    &&& s.failure is Some ==> !s.watching && s.stage == Stage::Stopped
}

/// Every path that the filter keeps belongs to the vendor's tools.
pub proof fn lemma_candidates(paths: Seq<PathView>)
    ensures
        forall|i: int|
            0 <= i < candidates(paths).len() ==> is_candidate(
                #[trigger] candidates(paths)[i].file_name,
            ),
    decreases paths.len(),
{
    if paths.len() > 0 {
        lemma_candidates(paths.drop_last());
    }
}

/// A run is consistent when it begins.
pub proof fn lemma_initial_consistent(command: CommandView)
    ensures
        consistent(initial(command)),
{
}

/// Turning to the next file keeps to the files of the vendor's tools.
proof fn lemma_advance_consistent(s: AppView)
    requires
        forall|i: int| 0 <= i < s.pending.len() ==> is_candidate(#[trigger] s.pending[i].file_name),
    ensures
        forall|i: int|
            0 <= i < advance(s, None).0.pending.len() ==> is_candidate(
                #[trigger] advance(s, None).0.pending[i].file_name,
            ),
        at_file(advance(s, None).0.stage) ==> is_candidate(advance(s, None).0.current.file_name),
{
    let next = advance(s, None).0;
    if s.pending.len() > 0 {
        assert(is_candidate(s.pending[0].file_name));
        assert forall|i: int| 0 <= i < next.pending.len() implies is_candidate(
            #[trigger] next.pending[i].file_name,
        ) by {
            assert(next.pending[i] == s.pending[i + 1]);
        }
    }
}

/// A step keeps a run consistent.
pub proof fn lemma_step_consistent(s: AppView, reply: ReplyView)
    requires
        consistent(s),
    ensures
        consistent(step(s, reply).0),
{
    lemma_advance_consistent(s);
    match reply {
        ReplyView::Listing(paths) => {
            lemma_candidates(paths);
            lemma_advance_consistent(AppView { pending: candidates(paths), ..s });
        },
        ReplyView::Changed(change) => {
            lemma_candidates(change.paths);
            lemma_advance_consistent(AppView { pending: candidates(change.paths), ..s });
        },
        _ => {},
    }
}

/// A file whose name lacks the vendor's mark is never looked at: whenever a
/// run asks whether a path is a file, or to read or to write it, the path is
/// the one that the run is then busy with, and its file name bears the mark.
pub proof fn lemma_only_candidates_touched(s: AppView, reply: ReplyView)
    requires
        consistent(s),
    ensures
        touched(step(s, reply).1.action) matches Some(path) ==> {
            &&& path == step(s, reply).0.current.path
            &&& is_candidate(step(s, reply).0.current.file_name)
            &&& at_file(step(s, reply).0.stage)
        },
{
    lemma_step_consistent(s, reply);
}

/// An entry that already has the icon that the rules give to its name is
/// neither read again nor written: the run turns to the next file.
pub proof fn lemma_resolved_file_left_alone(s: AppView, bytes: Seq<u8>)
    requires
        s.stage == Stage::Parsing,
        parse(s.current.path, Some(bytes)) is Ok,
        resolve(s.rules, parse(s.current.path, Some(bytes))->Ok_0.name) == parse(
            s.current.path,
            Some(bytes),
        )->Ok_0.icon,
    ensures
        step(s, ReplyView::Contents(bytes)) == advance(s, None),
        !(step(s, ReplyView::Contents(bytes)).1.action is Read),
        !(step(s, ReplyView::Contents(bytes)).1.action is Write),
{
}

/// Nothing that goes wrong with a file ends the run.
pub proof fn lemma_file_failures_contained(s: AppView, reply: ReplyView)
    requires
        at_file(s.stage),
    ensures
        step(s, reply).0.stage != Stage::Stopped,
        step(s, reply).0.failure == s.failure,
        !(step(s, reply).1.action is Abort),
        !(step(s, reply).1.action is Finish),
{
}

/// Once the watch is registered the run is never given up: it watches until
/// the channel closes, and then ends well.
pub proof fn lemma_watching_never_aborts(s: AppView, reply: ReplyView)
    requires
        consistent(s),
        phase(s) == Phase::Watching,
    ensures
        step(s, reply).0.watching,
        !(step(s, reply).1.action is Abort),
        phase(step(s, reply).0) == Phase::Stopped <==> s.stage == Stage::Receiving
            && reply is Closed,
{
}

/// A run that is over stays as it is.
pub proof fn lemma_stopped_is_final(s: AppView, reply: ReplyView)
    requires
        s.stage == Stage::Stopped,
    ensures
        step(s, reply).0 == s,
        step(s, reply).1.action is Finish || step(s, reply).1.action is Abort,
{
}

} // verus!
