//! How a whole script is read back.

use vstd::prelude::*;
use crate::grammar::line as rules;
use crate::grammar::properties::{properties, properties_onto, property, seeds, with_property};
use crate::grammar::{
    hltas, leading, line_ending, line_endings, lines, member, multispace0, parse, tag, version,
    Class, Fault,
};
use crate::laws::constraints::lemma_line_constraints;
use crate::laws::fields::{ends_line, lemma_first, lemma_joined};
use crate::laws::lines::{
    lemma_digits_value, lemma_integer_value, lemma_line_buttons, lemma_line_change,
    lemma_line_comment, lemma_line_frame_bulk, lemma_line_lgagst_min_speed, lemma_line_reset,
    lemma_line_save, lemma_line_seed, lemma_line_strafing, lemma_line_target_yaw_override,
    lemma_property, lemma_all_of,
};
use crate::laws::pieces::{
    all_of, lemma_digits_shape, lemma_non_shared_seed, lemma_non_zero_u32, lemma_shared_seed,
    lemma_space, lemma_split, lemma_tag,
};
use crate::laws::valid;
use crate::notation;
use crate::text::lemma_concat_assoc;
use crate::types::{HLTASView, LineView, Positive, PropertiesView, Seeds};

verus! {

/// What is written of a line starts with something that is no blank.
pub proof fn lemma_line_starts(line: LineView)
    ensures
        notation::line(line).len() > 0,
        !member(Class::Blank, notation::line(line)[0]),
{
    reveal_strlit("save");
    reveal_strlit("seed");
    reveal_strlit("buttons");
    reveal_strlit("lgagstminspeed");
    reveal_strlit("reset");
    reveal_strlit("//");
    reveal_strlit("strafing");
    reveal_strlit("target_yaw");
    reveal_strlit("change ");
    reveal_strlit("target_yaw_override");
    reveal_strlit("---");
    reveal_strlit("s");
    let text = notation::line(line);
    match line {
        LineView::FrameBulk(bulk) => {
            let m = notation::movement_marker(bulk.auto_actions.movement);
            assert(m.len() > 0 && (m[0] == '-' || m[0] == 's'));
            assert(notation::auto_actions(bulk.auto_actions)[0] == m[0]);
            assert(notation::frame_bulk_keys(bulk)[0] == m[0]);
            assert(text[0] == m[0]);
        },
        LineView::Save(_) => {
            assert(text[0] == 's');
        },
        LineView::SharedSeed(_) => {
            assert(text[0] == 's');
        },
        LineView::Buttons(b) => {
            assert(text[0] == 'b');
        },
        LineView::LGAGSTMinSpeed(_) => {
            assert(text[0] == 'l');
        },
        LineView::Reset { .. } => {
            assert(text[0] == 'r');
        },
        LineView::Comment(_) => {
            assert(text[0] == '/');
        },
        LineView::VectorialStrafing(_) => {
            assert(text[0] == 's');
        },
        LineView::VectorialStrafingConstraints(_) => {
            assert(text[0] == 't');
        },
        LineView::Change(_) => {
            assert(text[0] == 'c');
        },
        LineView::TargetYawOverride(_) => {
            assert(text[0] == 't');
        },
    }
}

/// A line is read back before the end of the line.
pub proof fn lemma_line(line: LineView, tail: Seq<char>)
    requires
        valid::line(line),
        ends_line(tail),
    ensures
        rules::line(notation::line(line) + tail) == Ok::<_, Fault>((tail, line)),
{
    match line {
        LineView::FrameBulk(bulk) => lemma_line_frame_bulk(bulk, tail),
        LineView::Save(name) => lemma_line_save(name, tail),
        LineView::SharedSeed(seed) => lemma_line_seed(seed, tail),
        LineView::Buttons(buttons) => lemma_line_buttons(buttons, tail),
        LineView::LGAGSTMinSpeed(speed) => lemma_line_lgagst_min_speed(speed, tail),
        LineView::Reset { non_shared_seed } => lemma_line_reset(non_shared_seed, tail),
        LineView::Comment(text) => lemma_line_comment(text, tail),
        LineView::VectorialStrafing(enabled) => lemma_line_strafing(enabled, tail),
        LineView::VectorialStrafingConstraints(c) => lemma_line_constraints(c, tail),
        LineView::Change(c) => lemma_line_change(c, tail),
        LineView::TargetYawOverride(yaws) => lemma_line_target_yaw_override(yaws, tail),
    }
}

/// The lines as they are read: each behind a line feed, and one more line
/// feed at the end.
pub open spec fn fed(lines: Seq<LineView>) -> Seq<char>
    decreases lines.len(),
{
    if lines.len() == 0 {
        seq!['\n']
    } else {
        seq!['\n'] + (notation::line(lines[0]) + fed(lines.skip(1)))
    }
}

/// The lines with a line feed behind each are, behind one more line feed,
/// the lines with a line feed before each and one at the end.
pub proof fn lemma_fed(lines: Seq<LineView>)
    ensures
        seq!['\n'] + notation::lines(lines) == fed(lines),
        fed(lines).len() > 0,
        fed(lines)[0] == '\n',
    decreases lines.len(),
{
    reveal_strlit("\n");
    assert("\n"@ =~= seq!['\n']);
    let nl = seq!['\n'];
    if lines.len() == 0 {
        assert(nl + notation::lines(lines) =~= nl);
    } else {
        let front = lines.drop_last();
        let last = lines.last();
        lemma_fed(front);
        // fed(lines) is fed(front) with the last line and a line feed behind it.
        lemma_fed_push(front, last);
        assert(front.push(last) =~= lines);
        assert(nl + (notation::lines(front) + notation::line(last) + nl) =~= (nl
            + notation::lines(front)) + (notation::line(last) + nl));
    }
}

/// One more line at the end goes before the last line feed.
pub proof fn lemma_fed_push(lines: Seq<LineView>, last: LineView)
    ensures
        fed(lines.push(last)) == fed(lines) + (notation::line(last) + seq!['\n']),
    decreases lines.len(),
{
    let nl = seq!['\n'];
    let all = lines.push(last);
    if lines.len() == 0 {
        assert(all.skip(1) =~= Seq::<LineView>::empty());
        assert(fed(all.skip(1)) == nl);
        assert(nl + (notation::line(last) + nl) =~= nl + (notation::line(last) + nl));
    } else {
        assert(all.skip(1) =~= lines.skip(1).push(last));
        assert(all[0] == lines[0]);
        lemma_fed_push(lines.skip(1), last);
        assert(nl + (notation::line(lines[0]) + (fed(lines.skip(1)) + (notation::line(last)
            + nl))) =~= (nl + (notation::line(lines[0]) + fed(lines.skip(1)))) + (notation::line(
            last,
        ) + nl));
    }
}

/// The lines of a script are read back up to the end of the input.
pub proof fn lemma_lines(all: Seq<LineView>)
    requires
        valid::lines(all),
    ensures
        lines(fed(all)) == Ok::<_, Fault>((Seq::<char>::empty(), all)),
    decreases all.len(),
{
    let nl = seq!['\n'];
    let i = fed(all);
    if all.len() == 0 {
        assert(i.skip(1) =~= Seq::<char>::empty());
        assert(leading(i.skip(1), Class::Blank) == 0);
        assert(leading(i, Class::Blank) == 1);
        assert(multispace0(i) =~= Seq::<char>::empty());
        assert(all =~= Seq::<LineView>::empty());
    } else {
        let first = all[0];
        let others = all.skip(1);
        let text = notation::line(first);
        let rest = fed(others);
        lemma_line_starts(first);
        lemma_fed(others);
        lemma_first(nl, text + rest);
        assert((text + rest)[0] == text[0]);
        assert(leading(text + rest, Class::Blank) == 0);
        assert(leading(i, Class::Blank) == 1);
        assert((text + rest).skip(0) =~= text + rest);
        assert(multispace0(i) == text + rest);
        assert(valid::lines(others)) by {
            assert forall|k: int| 0 <= k < others.len() implies valid::line(
                #[trigger] others[k],
            ) by {
                assert(others[k] == all[k + 1]);
            }
        }
        lemma_line(first, rest);
        lemma_lines(others);
        assert(seq![first] + others =~= all);
    }
}

/// The text of the properties from a given one on, each behind a line
/// feed, with `more` behind them.
pub open spec fn from_demo(p: PropertiesView, more: Seq<char>) -> Seq<char> {
    entry("demo"@, p.demo, from_save(p, more))
}

/// The properties from `save` on, as they are read, before `more`.
pub open spec fn from_save(p: PropertiesView, more: Seq<char>) -> Seq<char> {
    entry("save"@, p.save, from_seed(p, more))
}

/// The properties from `seed` on, as they are read, before `more`.
pub open spec fn from_seed(p: PropertiesView, more: Seq<char>) -> Seq<char> {
    entry("seed"@, seeds_value(p.seeds), from_frametime(p, more))
}

/// The properties from `frametime0ms` on, as they are read, before `more`.
pub open spec fn from_frametime(p: PropertiesView, more: Seq<char>) -> Seq<char> {
    entry("frametime0ms"@, p.frametime_0ms, from_version(p, more))
}

/// The properties from `hlstrafe_version` on, as they are read, before `more`.
pub open spec fn from_version(p: PropertiesView, more: Seq<char>) -> Seq<char> {
    entry("hlstrafe_version"@, version_value(p.hlstrafe_version), from_command(p, more))
}

/// The property `load_command`, as it is read, before `more`.
pub open spec fn from_command(p: PropertiesView, more: Seq<char>) -> Seq<char> {
    entry("load_command"@, p.load_command, more)
}

/// The value of the seed property.
pub open spec fn seeds_value(seeds: Option<Seeds>) -> Option<Seq<char>> {
    match seeds {
        Some(seeds) => Some(
            notation::digits(seeds.shared as nat) + " "@ + notation::integer(
                seeds.non_shared as int,
            ),
        ),
        None => None,
    }
}

/// The value of the version property.
pub open spec fn version_value(version: Option<Positive>) -> Option<Seq<char>> {
    match version {
        Some(version) => Some(notation::digits(version.value() as nat)),
        None => None,
    }
}

/// A property as it is read: behind a line feed, before `more`; nothing
/// but `more` if the property is not set.
pub open spec fn entry(name: Seq<char>, value: Option<Seq<char>>, more: Seq<char>) -> Seq<char> {
    match value {
        Some(value) => seq!['\n'] + (name + (seq![' '] + (value + more))),
        None => more,
    }
}

/// A line feed behind a property line goes before what follows.
pub proof fn lemma_entry(name: Seq<char>, value: Option<Seq<char>>, more: Seq<char>)
    ensures
        seq!['\n'] + (notation::property(name, value) + more) == entry(
            name,
            value,
            seq!['\n'] + more,
        ),
{
    reveal_strlit("\n");
    reveal_strlit(" ");
    assert("\n"@ =~= seq!['\n']);
    assert(" "@ =~= seq![' ']);
    let nl = seq!['\n'];
    match value {
        Some(v) => {
            assert(nl + ((name + seq![' '] + v + nl) + more) =~= nl + (name + (seq![' '] + (v + (
            nl + more)))));
        },
        None => {
            assert(notation::property(name, value) + more =~= more);
        },
    }
}

/// What is written of the properties, behind a line feed and before
/// `more`, is the properties as they are read, before a line feed and `more`.
pub proof fn lemma_entries(p: PropertiesView, more: Seq<char>)
    ensures
        seq!['\n'] + (notation::properties(p) + more) == from_demo(p, seq!['\n'] + more),
{
    let nl = seq!['\n'];
    let demo = notation::property("demo"@, p.demo);
    let save = notation::property("save"@, p.save);
    let seed = notation::property("seed"@, seeds_value(p.seeds));
    let frametime = notation::property("frametime0ms"@, p.frametime_0ms);
    let version_line = notation::property("hlstrafe_version"@, version_value(p.hlstrafe_version));
    let command = notation::property("load_command"@, p.load_command);
    assert(notation::properties(p) == demo + save + seed + frametime + version_line + command);
    lemma_joined(demo, save, seed, frametime, version_line, command, more);
    lemma_entry("load_command"@, p.load_command, more);
    lemma_entry("hlstrafe_version"@, version_value(p.hlstrafe_version), command + more);
    lemma_entry("frametime0ms"@, p.frametime_0ms, version_line + (command + more));
    lemma_entry("seed"@, seeds_value(p.seeds), frametime + (version_line + (command + more)));
    lemma_entry("save"@, p.save, seed + (frametime + (version_line + (command + more))));
    lemma_entry("demo"@, p.demo, save + (seed + (frametime + (version_line + (command + more)))));
}

/// The names of the properties, as far as the laws need them.
pub proof fn lemma_names()
    ensures
        "demo"@.len() == 4 && "demo"@[0] == 'd' && all_of("demo"@, Class::Name),
        "save"@.len() == 4 && "save"@[0] == 's' && "save"@[1] == 'a' && all_of(
            "save"@,
            Class::Name,
        ),
        "seed"@.len() == 4 && "seed"@[0] == 's' && "seed"@[1] == 'e' && all_of(
            "seed"@,
            Class::Name,
        ),
        "frametime0ms"@.len() == 12 && "frametime0ms"@[0] == 'f' && all_of(
            "frametime0ms"@,
            Class::Name,
        ),
        "hlstrafe_version"@.len() == 16 && "hlstrafe_version"@[0] == 'h' && all_of(
            "hlstrafe_version"@,
            Class::Name,
        ),
        "load_command"@.len() == 12 && "load_command"@[0] == 'l' && all_of(
            "load_command"@,
            Class::Name,
        ),
        "frames"@.len() == 6 && "frames"@[0] == 'f' && all_of("frames"@, Class::Name),
        "frames\n"@ == "frames"@ + seq!['\n'],
        "version 1\n"@ == "version"@ + (seq![' '] + (seq!['1'] + seq!['\n'])),
        " "@ == seq![' '],
{
    reveal_strlit("demo");
    reveal_strlit("save");
    reveal_strlit("seed");
    reveal_strlit("frametime0ms");
    reveal_strlit("hlstrafe_version");
    reveal_strlit("load_command");
    reveal_strlit("frames");
    reveal_strlit("frames\n");
    reveal_strlit("version 1\n");
    reveal_strlit("version");
    reveal_strlit(" ");
    assert("frames\n"@ =~= "frames"@ + seq!['\n']);
    assert("version 1\n"@ =~= "version"@ + (seq![' '] + (seq!['1'] + seq!['\n'])));
    assert(" "@ =~= seq![' ']);
}

/// Whether `more` starts with a line feed.
pub open spec fn fed_first(more: Seq<char>) -> bool {
    more.len() > 0 && more[0] == '\n'
}

/// A property behind a line feed is read, and the reading goes on behind it.
pub proof fn lemma_step(
    name: Seq<char>,
    value: Seq<char>,
    more: Seq<char>,
    acc: PropertiesView,
    next: PropertiesView,
)
    requires
        name.len() > 0,
        all_of(name, Class::Name),
        valid::value_text(value),
        fed_first(more),
        with_property(acc, name, value, more.len()) == Ok::<_, Fault>(next),
    ensures
        properties_onto(entry(name, Some(value), more), acc) == properties_onto(more, next),
{
    let nl = seq!['\n'];
    let rest = name + (seq![' '] + (value + more));
    let i = nl + rest;
    lemma_first(nl, rest);
    assert(rest[0] == name[0]);
    assert(member(Class::Name, name[0]));
    assert(line_ending(rest) is Err);
    assert(line_endings(i) == Ok::<_, Fault>((rest, ())));
    lemma_property(name, value, more);
}

/// The properties end before a line that is no property.
pub proof fn lemma_stop(more: Seq<char>, acc: PropertiesView)
    ensures
        properties_onto(seq!['\n'] + ("frames\n"@ + more), acc) == Ok::<_, Fault>(
            (seq!['\n'] + ("frames\n"@ + more), acc),
        ),
        line_endings(seq!['\n'] + ("frames\n"@ + more)) == Ok::<_, Fault>(
            ("frames\n"@ + more, ()),
        ),
        tag("frames\n"@ + more, "frames"@) == Ok::<_, Fault>((seq!['\n'] + more, ())),
{
    reveal(property);
    lemma_names();
    let nl = seq!['\n'];
    let rest = "frames\n"@ + more;
    let i = nl + rest;
    lemma_first(nl, rest);
    lemma_concat_assoc("frames"@, nl, more);
    assert(rest == "frames"@ + (nl + more));
    assert(rest[0] == 'f');
    assert(line_ending(rest) is Err);
    assert(line_endings(i) == Ok::<_, Fault>((rest, ())));
    lemma_first(nl, more);
    crate::laws::pieces::lemma_run("frames"@, nl + more, Class::Name);
    lemma_split("frames"@, nl + more);
    assert(leading(nl + more, Class::Space) == 0);
    lemma_tag("frames"@, nl + more);
}

/// The properties that were read when each property is reached.
pub open spec fn with_demo(p: PropertiesView) -> PropertiesView {
    PropertiesView { demo: p.demo, ..PropertiesView::none() }
}

/// The properties that were read once `save` is passed.
pub open spec fn with_save(p: PropertiesView) -> PropertiesView {
    PropertiesView { save: p.save, ..with_demo(p) }
}

/// The properties that were read once `seed` is passed.
pub open spec fn with_seed(p: PropertiesView) -> PropertiesView {
    PropertiesView { seeds: p.seeds, ..with_save(p) }
}

/// The properties that were read once `frametime0ms` is passed.
pub open spec fn with_frametime(p: PropertiesView) -> PropertiesView {
    PropertiesView { frametime_0ms: p.frametime_0ms, ..with_seed(p) }
}

/// The properties that were read once `hlstrafe_version` is passed.
pub open spec fn with_version(p: PropertiesView) -> PropertiesView {
    PropertiesView { hlstrafe_version: p.hlstrafe_version, ..with_frametime(p) }
}

/// Each part of the properties as they are read starts with a line feed.
pub proof fn lemma_from_starts(p: PropertiesView, more: Seq<char>)
    requires
        fed_first(more),
    ensures
        fed_first(from_command(p, more)),
        fed_first(from_version(p, more)),
        fed_first(from_frametime(p, more)),
        fed_first(from_seed(p, more)),
        fed_first(from_save(p, more)),
        fed_first(from_demo(p, more)),
{
}

/// A property that is a text is taken as it is read.
pub proof fn lemma_takes_text(acc: PropertiesView, value: Seq<char>, more: nat)
    ensures
        with_property(acc, "demo"@, value, more) == Ok::<_, Fault>(
            PropertiesView { demo: Some(value), ..acc },
        ),
        with_property(acc, "save"@, value, more) == Ok::<_, Fault>(
            PropertiesView { save: Some(value), ..acc },
        ),
        with_property(acc, "frametime0ms"@, value, more) == Ok::<_, Fault>(
            PropertiesView { frametime_0ms: Some(value), ..acc },
        ),
        with_property(acc, "load_command"@, value, more) == Ok::<_, Fault>(
            PropertiesView { load_command: Some(value), ..acc },
        ),
{
    reveal(with_property);
    lemma_names();
}

/// The seeds are taken as they are read.
pub proof fn lemma_takes_seeds(acc: PropertiesView, s: Seeds, more: nat)
    ensures
        with_property(acc, "seed"@, seeds_value(Some(s))->Some_0, more) == Ok::<_, Fault>(
            PropertiesView { seeds: Some(s), ..acc },
        ),
        valid::value_text(seeds_value(Some(s))->Some_0),
{
    reveal(with_property);
    lemma_names();
    let d = notation::digits(s.shared as nat);
    let n = notation::integer(s.non_shared as int);
    let value = seeds_value(Some(s))->Some_0;
    assert(value =~= d + (seq![' '] + n));
    lemma_digits_value(s.shared as nat);
    lemma_integer_value(s.non_shared as int);
    lemma_first(seq![' '], n);
    lemma_shared_seed(s.shared, seq![' '] + n);
    assert(n[0] != ' ' && n[0] != '\t') by {
        lemma_digits_shape(
            if s.non_shared < 0 {
                (-s.non_shared) as nat
            } else {
                s.non_shared as nat
            },
        );
    }
    lemma_space(n);
    lemma_non_shared_seed(s.non_shared, Seq::<char>::empty());
    lemma_all_of(seq![' '], n, Class::NotBreak);
    lemma_all_of(d, seq![' '] + n, Class::NotBreak);
    assert(value[0] == d[0]);
}

/// The version is taken as it is read.
pub proof fn lemma_takes_version(acc: PropertiesView, v: Positive, more: nat)
    requires
        valid::count(v),
    ensures
        with_property(acc, "hlstrafe_version"@, version_value(Some(v))->Some_0, more) == Ok::<
            _,
            Fault,
        >(PropertiesView { hlstrafe_version: Some(v), ..acc }),
        valid::value_text(version_value(Some(v))->Some_0),
{
    reveal(with_property);
    lemma_names();
    lemma_digits_value(v.value() as nat);
    lemma_non_zero_u32(v, Seq::<char>::empty());
}

/// The properties are read back before the `frames` line.
pub proof fn lemma_properties(p: PropertiesView, more: Seq<char>)
    requires
        valid::properties(p),
    ensures
        properties(from_demo(p, seq!['\n'] + ("frames\n"@ + more))) == Ok::<_, Fault>(
            (seq!['\n'] + ("frames\n"@ + more), p),
        ),
{
    lemma_names();
    let end = seq!['\n'] + ("frames\n"@ + more);
    assert(end[0] == '\n');
    lemma_from_starts(p, end);
    let none = PropertiesView::none();
    if let Some(value) = p.demo {
        lemma_takes_text(none, value, from_save(p, end).len());
        lemma_step("demo"@, value, from_save(p, end), none, with_demo(p));
    }
    assert(properties_onto(from_demo(p, end), none) == properties_onto(
        from_save(p, end),
        with_demo(p),
    ));
    if let Some(value) = p.save {
        lemma_takes_text(with_demo(p), value, from_seed(p, end).len());
        lemma_step("save"@, value, from_seed(p, end), with_demo(p), with_save(p));
    }
    assert(properties_onto(from_save(p, end), with_demo(p)) == properties_onto(
        from_seed(p, end),
        with_save(p),
    ));
    if let Some(s) = p.seeds {
        lemma_takes_seeds(with_save(p), s, from_frametime(p, end).len());
        lemma_step(
            "seed"@,
            seeds_value(Some(s))->Some_0,
            from_frametime(p, end),
            with_save(p),
            with_seed(p),
        );
    }
    assert(properties_onto(from_seed(p, end), with_save(p)) == properties_onto(
        from_frametime(p, end),
        with_seed(p),
    ));
    lemma_properties_end(p, more);
}

/// The last three properties are read back before the `frames` line.
pub proof fn lemma_properties_end(p: PropertiesView, more: Seq<char>)
    requires
        valid::properties(p),
    ensures
        properties_onto(
            from_frametime(p, seq!['\n'] + ("frames\n"@ + more)),
            with_seed(p),
        ) == Ok::<_, Fault>((seq!['\n'] + ("frames\n"@ + more), p)),
{
    lemma_names();
    let end = seq!['\n'] + ("frames\n"@ + more);
    assert(end[0] == '\n');
    lemma_from_starts(p, end);
    if let Some(value) = p.frametime_0ms {
        lemma_takes_text(with_seed(p), value, from_version(p, end).len());
        lemma_step("frametime0ms"@, value, from_version(p, end), with_seed(p), with_frametime(p));
    }
    assert(properties_onto(from_frametime(p, end), with_seed(p)) == properties_onto(
        from_version(p, end),
        with_frametime(p),
    ));
    if let Some(v) = p.hlstrafe_version {
        lemma_takes_version(with_frametime(p), v, from_command(p, end).len());
        lemma_step(
            "hlstrafe_version"@,
            version_value(Some(v))->Some_0,
            from_command(p, end),
            with_frametime(p),
            with_version(p),
        );
    }
    assert(properties_onto(from_version(p, end), with_frametime(p)) == properties_onto(
        from_command(p, end),
        with_version(p),
    ));
    let last = PropertiesView { load_command: p.load_command, ..with_version(p) };
    assert(last == p);
    if let Some(value) = p.load_command {
        lemma_takes_text(with_version(p), value, end.len());
        lemma_step("load_command"@, value, end, with_version(p), p);
    }
    assert(properties_onto(from_command(p, end), with_version(p)) == properties_onto(end, p));
    lemma_stop(more, p);
}

/// The version line is read back.
pub proof fn lemma_version(more: Seq<char>)
    ensures
        version("version 1\n"@ + more) == Ok::<_, Fault>((seq!['\n'] + more, ())),
{
    reveal(version);
    lemma_names();
    let nl = seq!['\n'];
    let i3 = nl + more;
    let i2 = seq!['1'] + i3;
    let i1 = seq![' '] + i2;
    assert("version 1\n"@ + more =~= "version"@ + i1);
    lemma_tag("version"@, i1);
    lemma_first(seq!['1'], i3);
    lemma_space(i2);
}

/// What is written of a well-formed script is read back as that script.
pub proof fn lemma_script(script: HLTASView)
    requires
        valid::script(script),
    ensures
        parse(notation::hltas(script)) == Ok::<_, Fault>(script),
{
    reveal(hltas);
    lemma_names();
    let nl = seq!['\n'];
    let p = notation::properties(script.properties);
    let l = notation::lines(script.lines);
    let i = notation::hltas(script);
    // version 1 / properties / frames / lines
    assert(i =~= "version 1\n"@ + (p + ("frames\n"@ + l)));
    lemma_version(p + ("frames\n"@ + l));
    lemma_entries(script.properties, "frames\n"@ + l);
    lemma_properties(script.properties, l);
    lemma_stop(l, script.properties);
    lemma_fed(script.lines);
    lemma_lines(script.lines);
}

} // verus!
