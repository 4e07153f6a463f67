//! How the lines of the frames section are read back.

use vstd::prelude::*;
use crate::grammar::line as rules;
use crate::grammar::properties::property;
use crate::grammar::{is_digit, is_number, leading, member, or, space1, to, Class, Fault, Out};
use crate::laws::fields::{ends_line, lemma_first, lemma_float, lemma_frame_bulk, lemma_joined_nine};
use crate::laws::pieces::{
    all_of, ends_number, ends_run, lemma_digits_shape, lemma_non_shared_seed, lemma_not_tag,
    lemma_number_chars, lemma_rest_of_line, lemma_run, lemma_shared_seed, lemma_space, lemma_split,
    lemma_tag,
};
use crate::laws::valid;
use crate::notation;
use crate::runs::lemma_leading_bound;
use crate::text::lemma_concat_assoc;
use crate::types::{Button, Buttons, ChangeTarget, ChangeView, FrameBulkView, LineView};

verus! {

/// Whether a result is a fault that leaves the alternatives open.
pub open spec fn passes<T>(o: Out<T>) -> bool {
    o matches Err(e) && !e.cut
}

/// The name that a line starts with: its letters, digits and `_`.
pub open spec fn head(i: Seq<char>) -> Seq<char> {
    i.take(leading(i, Class::Name) as int)
}

/// A name and a value with one space between them are read back as a property.
pub proof fn lemma_property(word: Seq<char>, value: Seq<char>, tail: Seq<char>)
    requires
        word.len() > 0,
        all_of(word, Class::Name),
        valid::value_text(value),
        ends_line(tail),
    ensures
        property(word + (seq![' '] + (value + tail))) == Ok::<_, Fault>((tail, (word, value))),
        head(word + (seq![' '] + (value + tail))) == word,
{
    reveal(property);
    let i2 = value + tail;
    let i1 = seq![' '] + i2;
    lemma_first(seq![' '], i2);
    lemma_run(word, i1, Class::Name);
    lemma_split(word, i1);
    if value.len() > 0 {
        assert(i2[0] == value[0]);
    } else {
        assert(i2 =~= tail);
    }
    lemma_space(i2);
    lemma_rest_of_line(value, tail);
}

/// A line whose name starts with `key` is read as such, with its value.
pub proof fn lemma_keyed(key: Seq<char>, word: Seq<char>, value: Seq<char>, tail: Seq<char>)
    requires
        word.len() > 0,
        all_of(word, Class::Name),
        valid::value_text(value),
        ends_line(tail),
    ensures
        key.is_prefix_of(word) ==> rules::keyed(word + (seq![' '] + (value + tail)), key) == Ok::<
            _,
            Fault,
        >((tail, value)),
        !key.is_prefix_of(word) ==> passes(rules::keyed(word + (seq![' '] + (value + tail)), key)),
{
    reveal(rules::keyed);
    lemma_property(word, value, tail);
}

/// A line whose name does not start with `key` is not read as one that does.
pub proof fn lemma_not_keyed(i: Seq<char>, key: Seq<char>)
    requires
        !key.is_prefix_of(head(i)),
    ensures
        passes(rules::keyed(i, key)),
{
    reveal(rules::keyed);
    reveal(property);
}

/// A text is no start of another that differs from it in some place, or
/// ends before that place.
pub proof fn lemma_not_prefix(key: Seq<char>, word: Seq<char>, at: int)
    requires
        0 <= at < key.len(),
        at < word.len() ==> word[at] != key[at],
    ensures
        !key.is_prefix_of(word),
{
    if key.is_prefix_of(word) {
        assert(word.subrange(0, key.len() as int)[at] == key[at]);
    }
}

/// A line that starts with neither `-` nor `s` and a digit is no frame bulk.
pub proof fn lemma_not_frame_bulk(i: Seq<char>)
    requires
        i.len() > 0,
        i[0] != '-',
        i[0] == 's' ==> i.len() > 1 && !is_digit(i[1]),
    ensures
        passes(rules::line_frame_bulk(i)),
{
    reveal(rules::line_frame_bulk);
    reveal(rules::auto_actions);
    reveal_strlit("---");
    lemma_not_tag(i, "---"@, 0);
    if i[0] == 's' {
        assert(i.skip(1)[0] == i[1]);
    }
}

/// A line that does not start with `b` is no buttons line.
pub proof fn lemma_not_buttons(i: Seq<char>)
    requires
        i.len() == 0 || i[0] != 'b',
    ensures
        passes(rules::line_buttons(i)),
{
    reveal(rules::line_buttons);
    reveal_strlit("buttons");
    lemma_not_tag(i, "buttons"@, 0);
}

/// A line that does not start with `/` is no comment.
pub proof fn lemma_not_comment(i: Seq<char>)
    requires
        i.len() == 0 || i[0] != '/',
    ensures
        passes(rules::line_comment(i)),
{
    reveal(rules::line_comment);
    reveal_strlit("//");
    lemma_not_tag(i, "//"@, 0);
}

/// A line that is not read as one whose name starts with the word of a
/// kind of line is not of that kind.
pub proof fn lemma_not_kinds(i: Seq<char>)
    ensures
        passes(rules::keyed(i, "save"@)) ==> passes(rules::line_save(i)),
        passes(rules::keyed(i, "seed"@)) ==> passes(rules::line_seed(i)),
        passes(rules::keyed(i, "lgagstminspeed"@)) ==> passes(rules::line_lgagst_min_speed(i)),
        passes(rules::keyed(i, "reset"@)) ==> passes(rules::line_reset(i)),
        passes(rules::keyed(i, "strafing"@)) ==> passes(rules::line_strafing(i)),
        passes(rules::keyed(i, "target_yaw_override"@)) ==> passes(
            rules::line_target_yaw_override(i),
        ),
        passes(rules::keyed(i, "target_yaw"@)) ==> passes(rules::line_target_yaw(i)),
        passes(rules::keyed(i, "change"@)) ==> passes(rules::line_change(i)),
{
    reveal(rules::line_save);
    reveal(rules::line_seed);
    reveal(rules::line_lgagst_min_speed);
    reveal(rules::line_reset);
    reveal(rules::line_strafing);
    reveal(rules::line_target_yaw_override);
    reveal(rules::line_target_yaw);
    reveal(rules::line_change);
}

/// The words that lines start with, as far as the laws need them.
pub proof fn lemma_words()
    ensures
        "save"@.len() == 4 && all_of("save"@, Class::Name) && "save"@[0] == 's' && "save"@[1]
            == 'a',
        "seed"@.len() == 4 && all_of("seed"@, Class::Name) && "seed"@[0] == 's' && "seed"@[1]
            == 'e',
        "buttons"@.len() == 7 && all_of("buttons"@, Class::Name) && "buttons"@[0] == 'b',
        "lgagstminspeed"@.len() == 14 && all_of("lgagstminspeed"@, Class::Name)
            && "lgagstminspeed"@[0] == 'l',
        "reset"@.len() == 5 && all_of("reset"@, Class::Name) && "reset"@[0] == 'r',
        "strafing"@.len() == 8 && all_of("strafing"@, Class::Name) && "strafing"@[0] == 's'
            && "strafing"@[1] == 't',
        "target_yaw_override"@.len() == 19 && all_of("target_yaw_override"@, Class::Name)
            && "target_yaw_override"@[0] == 't',
        "target_yaw"@.len() == 10 && all_of("target_yaw"@, Class::Name) && "target_yaw"@[0]
            == 't',
        "change"@.len() == 6 && all_of("change"@, Class::Name) && "change"@[0] == 'c',
        " "@ == seq![' '],
{
    reveal_strlit("save");
    reveal_strlit("seed");
    reveal_strlit("buttons");
    reveal_strlit("lgagstminspeed");
    reveal_strlit("reset");
    reveal_strlit("strafing");
    reveal_strlit("target_yaw_override");
    reveal_strlit("target_yaw");
    reveal_strlit("change");
    reveal_strlit(" ");
    assert(" "@ =~= seq![' ']);
}

/// Which kinds of line a line that starts with the given word is not.
pub proof fn lemma_other_words(word: Seq<char>)
    requires
        word.len() > 0,
    ensures
        word[0] != 's' ==> !"save"@.is_prefix_of(word) && !"seed"@.is_prefix_of(word)
            && !"strafing"@.is_prefix_of(word),
        word[0] == 's' && word.len() > 1 && word[1] != 'a' ==> !"save"@.is_prefix_of(word),
        word[0] == 's' && word.len() > 1 && word[1] != 'e' ==> !"seed"@.is_prefix_of(word),
        word[0] == 's' && word.len() > 1 && word[1] != 't' ==> !"strafing"@.is_prefix_of(word),
        word[0] != 'l' ==> !"lgagstminspeed"@.is_prefix_of(word),
        word[0] != 'r' ==> !"reset"@.is_prefix_of(word),
        word[0] != 't' ==> !"target_yaw_override"@.is_prefix_of(word) && !"target_yaw"@.is_prefix_of(
            word,
        ),
        word.len() < 19 ==> !"target_yaw_override"@.is_prefix_of(word),
        word[0] != 'c' ==> !"change"@.is_prefix_of(word),
{
    lemma_words();
    if word[0] != 's' {
        lemma_not_prefix("save"@, word, 0);
        lemma_not_prefix("seed"@, word, 0);
        lemma_not_prefix("strafing"@, word, 0);
    } else if word.len() > 1 {
        if word[1] != 'a' {
            lemma_not_prefix("save"@, word, 1);
        }
        if word[1] != 'e' {
            lemma_not_prefix("seed"@, word, 1);
        }
        if word[1] != 't' {
            lemma_not_prefix("strafing"@, word, 1);
        }
    }
    if word[0] != 'l' {
        lemma_not_prefix("lgagstminspeed"@, word, 0);
    }
    if word[0] != 'r' {
        lemma_not_prefix("reset"@, word, 0);
    }
    if word[0] != 't' {
        lemma_not_prefix("target_yaw_override"@, word, 0);
        lemma_not_prefix("target_yaw"@, word, 0);
    }
    if word[0] != 'c' {
        lemma_not_prefix("change"@, word, 0);
    }
}

/// What the kinds of line make of a line that is a word, a space and a
/// value: every kind whose word the line's word does not start with passes.
pub proof fn lemma_word_line(word: Seq<char>, value: Seq<char>, tail: Seq<char>)
    requires
        word.len() > 0,
        all_of(word, Class::Name),
        word[0] != 'b',
        word[0] == 's' ==> word.len() > 1 && !is_digit(word[1]),
        valid::value_text(value),
        ends_line(tail),
    ensures
        passes(rules::line_frame_bulk(word + (seq![' '] + (value + tail)))),
        passes(rules::line_buttons(word + (seq![' '] + (value + tail)))),
        passes(rules::line_comment(word + (seq![' '] + (value + tail)))),
        !"save"@.is_prefix_of(word) ==> passes(
            rules::line_save(word + (seq![' '] + (value + tail))),
        ),
        !"seed"@.is_prefix_of(word) ==> passes(
            rules::line_seed(word + (seq![' '] + (value + tail))),
        ),
        !"lgagstminspeed"@.is_prefix_of(word) ==> passes(
            rules::line_lgagst_min_speed(word + (seq![' '] + (value + tail))),
        ),
        !"reset"@.is_prefix_of(word) ==> passes(
            rules::line_reset(word + (seq![' '] + (value + tail))),
        ),
        !"strafing"@.is_prefix_of(word) ==> passes(
            rules::line_strafing(word + (seq![' '] + (value + tail))),
        ),
        !"target_yaw_override"@.is_prefix_of(word) ==> passes(
            rules::line_target_yaw_override(word + (seq![' '] + (value + tail))),
        ),
        !"target_yaw"@.is_prefix_of(word) ==> passes(
            rules::line_target_yaw(word + (seq![' '] + (value + tail))),
        ),
        !"change"@.is_prefix_of(word) ==> passes(
            rules::line_change(word + (seq![' '] + (value + tail))),
        ),
{
    let i = word + (seq![' '] + (value + tail));
    assert(i[0] == word[0]);
    if word.len() > 1 {
        assert(i[1] == word[1]);
    }
    assert(member(Class::Name, word[0]));
    lemma_not_frame_bulk(i);
    lemma_not_buttons(i);
    lemma_not_comment(i);
    lemma_not_kinds(i);
    lemma_keyed("save"@, word, value, tail);
    lemma_keyed("seed"@, word, value, tail);
    lemma_keyed("lgagstminspeed"@, word, value, tail);
    lemma_keyed("reset"@, word, value, tail);
    lemma_keyed("strafing"@, word, value, tail);
    lemma_keyed("target_yaw_override"@, word, value, tail);
    lemma_keyed("target_yaw"@, word, value, tail);
    lemma_keyed("change"@, word, value, tail);
}

/// A word, a space and a value in a row, grouped from the right.
pub proof fn lemma_worded(word: Seq<char>, value: Seq<char>, tail: Seq<char>)
    ensures
        word + " "@ + value + tail == word + (seq![' '] + (value + tail)),
{
    lemma_words();
    assert(word + seq![' '] + value + tail =~= word + (seq![' '] + (value + tail)));
}

/// The digits of a number can be the value of a property, and are read
/// back when nothing follows.
pub proof fn lemma_digits_value(n: nat)
    ensures
        valid::value_text(notation::digits(n)),
        notation::digits(n).len() > 0,
        notation::digits(n) + Seq::<char>::empty() == notation::digits(n),
{
    lemma_digits_shape(n);
    assert(notation::digits(n) + Seq::<char>::empty() =~= notation::digits(n));
}

/// A number with a sign can be the value of a property.
pub proof fn lemma_integer_value(n: int)
    ensures
        valid::value_text(notation::integer(n)),
        notation::integer(n).len() > 0,
        notation::integer(n) + Seq::<char>::empty() == notation::integer(n),
{
    let m = if n < 0 {
        (-n) as nat
    } else {
        n as nat
    };
    lemma_digits_shape(m);
    assert(notation::integer(n) + Seq::<char>::empty() =~= notation::integer(n));
    if n < 0 {
        assert forall|j: int| 0 <= j < notation::integer(n).len() implies member(
            Class::NotBreak,
            #[trigger] notation::integer(n)[j],
        ) by {
            if j > 0 {
                assert(notation::integer(n)[j] == notation::digits(m)[j - 1]);
            }
        }
    }
}

/// A number can be the value of a property, and is read back when nothing
/// follows.
pub proof fn lemma_number_value(text: Seq<char>)
    requires
        crate::grammar::is_float(text),
    ensures
        valid::value_text(text),
        text.len() > 0,
        rules::float(text) == Ok::<_, Fault>((Seq::<char>::empty(), text)),
{
    lemma_number_chars(text);
}

/// A save line is read back.
pub proof fn lemma_line_save(name: Seq<char>, tail: Seq<char>)
    requires
        valid::line(LineView::Save(name)),
        ends_line(tail),
    ensures
        rules::line(notation::line(LineView::Save(name)) + tail) == Ok::<_, Fault>(
            (tail, LineView::Save(name)),
        ),
{
    reveal(rules::line);
    reveal(rules::line_save);
    lemma_words();
    lemma_worded("save"@, name, tail);
    lemma_word_line("save"@, name, tail);
    lemma_keyed("save"@, "save"@, name, tail);
    assert("save"@.is_prefix_of("save"@)) by {
        assert("save"@.subrange(0, 4) =~= "save"@);
    }
}

/// A seed line is read back.
pub proof fn lemma_line_seed(seed: u32, tail: Seq<char>)
    requires
        ends_line(tail),
    ensures
        rules::line(notation::line(LineView::SharedSeed(seed)) + tail) == Ok::<_, Fault>(
            (tail, LineView::SharedSeed(seed)),
        ),
{
    reveal(rules::line);
    reveal(rules::line_seed);
    lemma_words();
    let value = notation::digits(seed as nat);
    lemma_digits_value(seed as nat);
    lemma_worded("seed"@, value, tail);
    lemma_word_line("seed"@, value, tail);
    lemma_other_words("seed"@);
    lemma_keyed("seed"@, "seed"@, value, tail);
    assert("seed"@.is_prefix_of("seed"@)) by {
        assert("seed"@.subrange(0, 4) =~= "seed"@);
    }
    lemma_shared_seed(seed, Seq::<char>::empty());
}

/// What follows `buttons` where buttons are assigned: each button behind
/// a space.
pub open spec fn assigned(a: Button, b: Button, c: Button, d: Button) -> Seq<char> {
    seq![' '] + (notation::button(a) + (seq![' '] + (notation::button(b) + (seq![' '] + (
    notation::button(c) + (seq![' '] + notation::button(d)))))))
}

/// A button behind a space is read back.
pub proof fn lemma_spaced_button(button: Button, tail: Seq<char>)
    ensures
        rules::spaced_button(seq![' '] + (notation::button(button) + tail)) == Ok::<_, Fault>(
            (tail, button),
        ),
        notation::button(button).len() == 1,
        is_digit(notation::button(button)[0]),
{
    reveal_strlit("0");
    reveal_strlit("1");
    reveal_strlit("2");
    reveal_strlit("3");
    reveal_strlit("4");
    reveal_strlit("5");
    reveal_strlit("6");
    reveal_strlit("7");
    let b = notation::button(button);
    lemma_first(b, tail);
    lemma_space(b + tail);
}

/// What follows `buttons` where buttons are assigned is spaces and the rest
/// of a line.
pub proof fn lemma_assigned_fits(a: Button, b: Button, c: Button, d: Button, tail: Seq<char>)
    requires
        ends_line(tail),
    ensures
        crate::grammar::not_line_ending((assigned(a, b, c, d) + tail).skip(1)) is Ok,
        space1(assigned(a, b, c, d) + tail) is Ok,
        (assigned(a, b, c, d) + tail)[0] == ' ',
{
    let sp = seq![' '];
    let (ta, tb, tc, td) = (
        notation::button(a),
        notation::button(b),
        notation::button(c),
        notation::button(d),
    );
    lemma_spaced_button(a, tail);
    lemma_spaced_button(b, tail);
    lemma_spaced_button(c, tail);
    lemma_spaced_button(d, tail);
    let t3 = sp + td;
    let t2 = sp + (tc + t3);
    let t1 = sp + (tb + t2);
    let text = ta + t1;
    lemma_all_of(sp, td, Class::NotBreak);
    lemma_all_of(tc, t3, Class::NotBreak);
    lemma_all_of(sp, tc + t3, Class::NotBreak);
    lemma_all_of(tb, t2, Class::NotBreak);
    lemma_all_of(sp, tb + t2, Class::NotBreak);
    lemma_all_of(ta, t1, Class::NotBreak);
    lemma_rest_of_line(text, tail);
    lemma_concat_assoc(sp, text, tail);
    assert(assigned(a, b, c, d) == sp + text);
    lemma_first(sp, text + tail);
    assert((text + tail)[0] == ta[0]);
    lemma_space(text + tail);
}

/// The four buttons are read back.
pub proof fn lemma_buttons(a: Button, b: Button, c: Button, d: Button, tail: Seq<char>)
    ensures
        rules::buttons(assigned(a, b, c, d) + tail) == Ok::<_, Fault>(
            (
                tail,
                Buttons::Assign { air_left: a, air_right: b, ground_left: c, ground_right: d },
            ),
        ),
{
    reveal(rules::buttons);
    let sp = seq![' '];
    let (ta, tb, tc, td) = (
        notation::button(a),
        notation::button(b),
        notation::button(c),
        notation::button(d),
    );
    let i3 = sp + (td + tail);
    let i2 = sp + (tc + i3);
    let i1 = sp + (tb + i2);
    let i0 = sp + (ta + i1);
    lemma_joined_nine(sp, ta, sp, tb, sp, tc, sp, td, tail);
    lemma_joined_nine(
        sp,
        ta,
        sp,
        tb,
        sp,
        tc,
        sp,
        td,
        Seq::<char>::empty(),
    );
    assert(td + Seq::<char>::empty() =~= td);
    assert(assigned(a, b, c, d) + tail == i0);
    lemma_spaced_button(a, i1);
    lemma_spaced_button(b, i2);
    lemma_spaced_button(c, i3);
    lemma_spaced_button(d, tail);
}

/// A line that starts with `buttons` and then something that is no part
/// of a name.
pub proof fn lemma_buttons_head(rest: Seq<char>)
    requires
        ends_run(rest, Class::Name),
    ensures
        head("buttons"@ + rest) == "buttons"@,
        ("buttons"@ + rest)[0] == 'b',
        passes(rules::line_frame_bulk("buttons"@ + rest)),
        passes(rules::line_save("buttons"@ + rest)),
        passes(rules::line_seed("buttons"@ + rest)),
{
    lemma_words();
    let i = "buttons"@ + rest;
    lemma_run("buttons"@, rest, Class::Name);
    lemma_split("buttons"@, rest);
    assert(i[0] == 'b');
    lemma_not_frame_bulk(i);
    lemma_other_words("buttons"@);
    lemma_not_keyed(i, "save"@);
    lemma_not_keyed(i, "seed"@);
    lemma_not_kinds(i);
}

/// A buttons line is read back.
pub proof fn lemma_line_buttons(buttons: Buttons, tail: Seq<char>)
    requires
        ends_line(tail),
    ensures
        rules::line(notation::line(LineView::Buttons(buttons)) + tail) == Ok::<_, Fault>(
            (tail, LineView::Buttons(buttons)),
        ),
{
    reveal(rules::line);
    reveal(rules::line_buttons);
    lemma_words();
    match buttons {
        Buttons::Reset => {
            let i = "buttons"@ + tail;
            lemma_buttons_head(tail);
            lemma_tag("buttons"@, tail);
            assert(space1(tail) is Err);
            assert(rules::line_buttons(i) == Ok::<_, Fault>((tail, Buttons::Reset)));
            assert(rules::line(i) == Ok::<_, Fault>((tail, LineView::Buttons(Buttons::Reset))));
        },
        Buttons::Assign { air_left, air_right, ground_left, ground_right } => {
            let rest = assigned(air_left, air_right, ground_left, ground_right) + tail;
            lemma_joined_nine(
                "buttons"@,
                " "@,
                notation::button(air_left),
                " "@,
                notation::button(air_right),
                " "@,
                notation::button(ground_left),
                " "@,
                notation::button(ground_right),
            );
            assert(notation::buttons(buttons) + tail =~= "buttons"@ + rest);
            lemma_assigned_fits(air_left, air_right, ground_left, ground_right, tail);
            lemma_buttons_head(rest);
            lemma_tag("buttons"@, rest);
            lemma_buttons(air_left, air_right, ground_left, ground_right, tail);
            assert(space1(rest) is Ok);
            assert(space1(rest)->Ok_0.0 == rest.skip(1)) by {
                crate::runs::lemma_leading_bound(rest, Class::Space);
                assert(rest.skip(1)[0] != ' ' && rest.skip(1)[0] != '\t') by {
                    lemma_spaced_button(air_left, tail);
                    assert(rest.skip(1)[0] == notation::button(air_left)[0]);
                }
                assert(leading(rest.skip(1), Class::Space) == 0);
            }
            assert(rules::line_buttons("buttons"@ + rest) == Ok::<_, Fault>((tail, buttons)));
        },
    }
}

/// With no frame bulk, save, seed or buttons line at `i`, what the line
/// is lies with the other kinds.
pub proof fn lemma_line_rest(i: Seq<char>)
    requires
        passes(rules::line_frame_bulk(i)),
        passes(rules::line_save(i)),
        passes(rules::line_seed(i)),
        passes(rules::line_buttons(i)),
    ensures
        rules::line(i) == rules::line_rest(i),
{
    reveal(rules::line);
}

/// A minimum-speed line is read back.
pub proof fn lemma_line_lgagst_min_speed(speed: Seq<char>, tail: Seq<char>)
    requires
        crate::grammar::is_float(speed),
        ends_line(tail),
    ensures
        rules::line(notation::line(LineView::LGAGSTMinSpeed(speed)) + tail) == Ok::<_, Fault>(
            (tail, LineView::LGAGSTMinSpeed(speed)),
        ),
{
    reveal(rules::line_rest);
    reveal(rules::line_lgagst_min_speed);
    lemma_words();
    let word = "lgagstminspeed"@;
    lemma_number_value(speed);
    lemma_worded(word, speed, tail);
    lemma_word_line(word, speed, tail);
    lemma_other_words(word);
    lemma_line_rest(word + (seq![' '] + (speed + tail)));
    lemma_keyed(word, word, speed, tail);
    assert(word.is_prefix_of(word)) by {
        assert(word.subrange(0, 14) =~= word);
    }
}

/// A reset line is read back.
pub proof fn lemma_line_reset(seed: i64, tail: Seq<char>)
    requires
        ends_line(tail),
    ensures
        rules::line(notation::line(LineView::Reset { non_shared_seed: seed }) + tail) == Ok::<
            _,
            Fault,
        >((tail, LineView::Reset { non_shared_seed: seed })),
{
    reveal(rules::line_rest);
    reveal(rules::line_reset);
    lemma_words();
    let word = "reset"@;
    let value = notation::integer(seed as int);
    lemma_integer_value(seed as int);
    lemma_worded(word, value, tail);
    lemma_word_line(word, value, tail);
    lemma_other_words(word);
    lemma_line_rest(word + (seq![' '] + (value + tail)));
    lemma_keyed(word, word, value, tail);
    assert(word.is_prefix_of(word)) by {
        assert(word.subrange(0, 5) =~= word);
    }
    lemma_non_shared_seed(seed, Seq::<char>::empty());
}

/// A comment line is read back.
pub proof fn lemma_line_comment(text: Seq<char>, tail: Seq<char>)
    requires
        valid::line_text(text),
        ends_line(tail),
    ensures
        rules::line(notation::line(LineView::Comment(text)) + tail) == Ok::<_, Fault>(
            (tail, LineView::Comment(text)),
        ),
{
    reveal(rules::line_rest);
    reveal(rules::line_comment);
    reveal_strlit("//");
    lemma_words();
    let i = "//"@ + (text + tail);
    assert(notation::line(LineView::Comment(text)) + tail =~= i);
    assert(i[0] == '/');
    assert(head(i) =~= Seq::<char>::empty());
    lemma_not_frame_bulk(i);
    lemma_not_buttons(i);
    lemma_not_kinds(i);
    lemma_not_keyed(i, "save"@);
    lemma_not_keyed(i, "seed"@);
    lemma_not_keyed(i, "lgagstminspeed"@);
    lemma_not_keyed(i, "reset"@);
    lemma_line_rest(i);
    lemma_tag("//"@, text + tail);
    lemma_rest_of_line(text, tail);
}

/// A strafing line is read back.
pub proof fn lemma_line_strafing(enabled: bool, tail: Seq<char>)
    requires
        ends_line(tail),
    ensures
        rules::line(notation::line(LineView::VectorialStrafing(enabled)) + tail) == Ok::<
            _,
            Fault,
        >((tail, LineView::VectorialStrafing(enabled))),
{
    reveal(rules::line_rest);
    reveal(rules::line_strafing);
    reveal_strlit("yaw");
    reveal_strlit("vectorial");
    lemma_words();
    let word = "strafing"@;
    let value = if enabled {
        "vectorial"@
    } else {
        "yaw"@
    };
    assert(valid::value_text(value));
    lemma_worded(word, value, tail);
    lemma_word_line(word, value, tail);
    lemma_other_words(word);
    lemma_line_rest(word + (seq![' '] + (value + tail)));
    lemma_not_comment(word + (seq![' '] + (value + tail)));
    lemma_keyed(word, word, value, tail);
    assert(word.is_prefix_of(word)) by {
        assert(word.subrange(0, 8) =~= word);
    }
    assert(value + Seq::<char>::empty() =~= value);
    lemma_tag(value, Seq::<char>::empty());
    if enabled {
        lemma_not_tag(value, "yaw"@, 0);
    }
}

/// Two texts of a class in a row are of that class.
pub proof fn lemma_all_of(a: Seq<char>, b: Seq<char>, k: Class)
    requires
        all_of(a, k),
        all_of(b, k),
    ensures
        all_of(a + b, k),
{
    assert forall|j: int| 0 <= j < (a + b).len() implies member(k, #[trigger] (a + b)[j]) by {
        if j < a.len() {
            assert((a + b)[j] == a[j]);
        } else {
            assert((a + b)[j] == b[j - a.len()]);
        }
    }
}

/// A number fits in a line.
pub proof fn lemma_number_fits(text: Seq<char>)
    requires
        is_number(text),
    ensures
        all_of(text, Class::NotBreak),
        text.len() > 0,
        !member(Class::Space, text[0]),
        text[0] != 'v' && text[0] != 'f' && text[0] != 'l' && text[0] != 'e',
{
    lemma_number_chars(text);
}

/// A frame bulk line is read back.
pub proof fn lemma_line_frame_bulk(bulk: FrameBulkView, tail: Seq<char>)
    requires
        valid::frame_bulk(bulk),
        ends_line(tail),
    ensures
        rules::line(notation::line(LineView::FrameBulk(bulk)) + tail) == Ok::<_, Fault>(
            (tail, LineView::FrameBulk(bulk)),
        ),
{
    reveal(rules::line);
    lemma_frame_bulk(bulk, tail);
}

/// The numbers behind the first, each behind a space, from the front.
pub proof fn lemma_spaced_front(numbers: Seq<Seq<char>>)
    requires
        numbers.len() > 0,
    ensures
        notation::spaced(numbers) == seq![' '] + (numbers[0] + notation::spaced(numbers.skip(1))),
    decreases numbers.len(),
{
    lemma_words();
    if numbers.len() == 1 {
        assert(numbers.drop_last() =~= Seq::<Seq<char>>::empty());
        assert(numbers.skip(1) =~= Seq::<Seq<char>>::empty());
        assert(notation::spaced(numbers.drop_last()) =~= Seq::<char>::empty());
        assert(notation::spaced(numbers) =~= seq![' '] + (numbers[0] + Seq::<char>::empty()));
    } else {
        let front = numbers.drop_last();
        lemma_spaced_front(front);
        assert(front.skip(1) =~= numbers.skip(1).drop_last());
        assert(front[0] == numbers[0]);
        assert(numbers.skip(1).last() == numbers.last());
        assert(notation::spaced(numbers) =~= seq![' '] + (numbers[0] + notation::spaced(
            numbers.skip(1),
        )));
    }
}

/// Numbers that are written each behind a space fit in a line and start
/// with a space, if there are any.
pub proof fn lemma_spaced_fits(numbers: Seq<Seq<char>>)
    requires
        valid::numbers(numbers),
    ensures
        all_of(notation::spaced(numbers), Class::NotBreak),
        ends_number(notation::spaced(numbers)),
    decreases numbers.len(),
{
    lemma_words();
    if numbers.len() > 0 {
        lemma_spaced_fits(numbers.drop_last());
        lemma_number_fits(numbers.last());
        lemma_all_of(notation::spaced(numbers.drop_last()), seq![' '], Class::NotBreak);
        lemma_all_of(
            notation::spaced(numbers.drop_last()) + seq![' '],
            numbers.last(),
            Class::NotBreak,
        );
        lemma_spaced_front(numbers);
    }
}

/// Numbers that are written each behind a space are read back.
pub proof fn lemma_more_floats(numbers: Seq<Seq<char>>)
    requires
        valid::numbers(numbers),
    ensures
        rules::more_floats(notation::spaced(numbers)) == (Seq::<char>::empty(), numbers),
    decreases numbers.len(),
{
    if numbers.len() == 0 {
        assert(numbers =~= Seq::<Seq<char>>::empty());
    } else {
        let first = numbers[0];
        let others = numbers.skip(1);
        let rest = notation::spaced(others);
        lemma_spaced_front(numbers);
        lemma_more_floats(others);
        lemma_spaced_fits(others);
        lemma_number_fits(first);
        assert((first + rest)[0] == first[0]);
        lemma_space(first + rest);
        lemma_float(first, rest);
        assert(seq![first] + others =~= numbers);
    }
}

/// An override line is read back.
pub proof fn lemma_line_target_yaw_override(yaws: Seq<Seq<char>>, tail: Seq<char>)
    requires
        valid::line(LineView::TargetYawOverride(yaws)),
        ends_line(tail),
    ensures
        rules::line(notation::line(LineView::TargetYawOverride(yaws)) + tail) == Ok::<_, Fault>(
            (tail, LineView::TargetYawOverride(yaws)),
        ),
{
    reveal(rules::line_rest);
    reveal(rules::line_target_yaw_override);
    lemma_words();
    let word = "target_yaw_override"@;
    let first = yaws[0];
    let others = yaws.skip(1);
    let rest = notation::spaced(others);
    let value = first + rest;
    lemma_spaced_front(yaws);
    lemma_spaced_fits(others);
    lemma_number_fits(first);
    lemma_all_of(first, rest, Class::NotBreak);
    assert(value[0] == first[0]);
    assert(notation::line(LineView::TargetYawOverride(yaws)) + tail =~= word + (seq![' '] + (value
        + tail)));
    lemma_word_line(word, value, tail);
    lemma_other_words(word);
    lemma_line_rest(word + (seq![' '] + (value + tail)));
    lemma_keyed(word, word, value, tail);
    assert(word.is_prefix_of(word)) by {
        assert(word.subrange(0, 19) =~= word);
    }
    lemma_float(first, rest);
    lemma_more_floats(others);
    assert(seq![first] + others =~= yaws);
}

/// The names of the values that a change line can change.
pub proof fn lemma_targets()
    ensures
        "yaw"@.len() == 3 && "yaw"@[0] == 'y' && all_of("yaw"@, Class::NotBreak),
        "pitch"@.len() == 5 && "pitch"@[0] == 'p' && all_of("pitch"@, Class::NotBreak),
        "target_yaw"@.len() == 10 && "target_yaw"@[0] == 't' && all_of(
            "target_yaw"@,
            Class::NotBreak,
        ),
        "target_yaw_offset"@.len() == 17 && "target_yaw_offset"@[0] == 't' && all_of(
            "target_yaw_offset"@,
            Class::NotBreak,
        ),
        "target_yaw_offset"@[10] == '_',
        " to "@.len() == 4 && " to "@[0] == ' ' && all_of(" to "@, Class::NotBreak),
        " over "@.len() == 6 && " over "@[0] == ' ' && all_of(" over "@, Class::NotBreak),
        " s"@.len() == 2 && " s"@[0] == ' ' && all_of(" s"@, Class::NotBreak),
        "change "@ == "change"@ + seq![' '],
{
    reveal_strlit("yaw");
    reveal_strlit("pitch");
    reveal_strlit("target_yaw");
    reveal_strlit("target_yaw_offset");
    reveal_strlit(" to ");
    reveal_strlit(" over ");
    reveal_strlit(" s");
    reveal_strlit("change ");
    reveal_strlit("change");
    assert("change "@ =~= "change"@ + seq![' ']);
}

/// The name of a value that a change line changes is read back before a space.
pub proof fn lemma_change_target(target: ChangeTarget, tail: Seq<char>)
    requires
        tail.len() > 0,
        tail[0] == ' ',
    ensures
        rules::change_target(notation::change_target(target) + tail) == Ok::<_, Fault>(
            (tail, target),
        ),
        all_of(notation::change_target(target), Class::NotBreak),
        notation::change_target(target).len() > 0,
        !member(Class::Space, notation::change_target(target)[0]),
{
    lemma_targets();
    let t = notation::change_target(target);
    let i = t + tail;
    lemma_tag(t, tail);
    assert(i[0] == t[0]);
    match target {
        ChangeTarget::Yaw => {},
        ChangeTarget::Pitch => {
            lemma_not_tag(i, "yaw"@, 0);
        },
        ChangeTarget::VectorialStrafingYawOffset => {
            lemma_not_tag(i, "yaw"@, 0);
            lemma_not_tag(i, "pitch"@, 0);
        },
        ChangeTarget::VectorialStrafingYaw => {
            lemma_not_tag(i, "yaw"@, 0);
            lemma_not_tag(i, "pitch"@, 0);
            assert(i[10] == tail[0]);
            lemma_not_tag(i, "target_yaw_offset"@, 10);
        },
    }
}

/// What a change line holds behind `change`.
pub open spec fn change_value(change: ChangeView) -> Seq<char> {
    notation::change_target(change.target) + (" to "@ + (change.final_value + (" over "@ + (
    change.over + " s"@))))
}

/// What a change line holds behind `change` is read back, and can be the
/// value of a property.
pub proof fn lemma_change(change: ChangeView)
    requires
        valid::change(change),
    ensures
        rules::change(change_value(change)) == Ok::<_, Fault>((Seq::<char>::empty(), change)),
        valid::value_text(change_value(change)),
{
    reveal(rules::change);
    lemma_targets();
    let t = notation::change_target(change.target);
    let f = change.final_value;
    let o = change.over;
    let i5 = " s"@;
    let i4 = o + i5;
    let i3 = " over "@ + i4;
    let i2 = f + i3;
    let i1 = " to "@ + i2;
    assert(i1[0] == ' ');
    assert(i3[0] == ' ');
    lemma_change_target(change.target, i1);
    lemma_tag(" to "@, i2);
    lemma_float(f, i3);
    lemma_tag(" over "@, i4);
    lemma_float(o, i5);
    assert(i5 + Seq::<char>::empty() =~= i5);
    lemma_tag(i5, Seq::<char>::empty());
    lemma_number_fits(f);
    lemma_number_fits(o);
    lemma_all_of(o, i5, Class::NotBreak);
    lemma_all_of(" over "@, i4, Class::NotBreak);
    lemma_all_of(f, i3, Class::NotBreak);
    lemma_all_of(" to "@, i2, Class::NotBreak);
    lemma_all_of(t, i1, Class::NotBreak);
    assert(change_value(change)[0] == t[0]);
}

/// A change line is read back.
pub proof fn lemma_line_change(change: ChangeView, tail: Seq<char>)
    requires
        valid::change(change),
        ends_line(tail),
    ensures
        rules::line(notation::line(LineView::Change(change)) + tail) == Ok::<_, Fault>(
            (tail, LineView::Change(change)),
        ),
{
    reveal(rules::line_rest);
    reveal(rules::line_change);
    lemma_words();
    lemma_targets();
    let word = "change"@;
    let value = change_value(change);
    lemma_change(change);
    lemma_joined_nine(
        "change"@ + seq![' '],
        notation::change_target(change.target),
        " to "@,
        change.final_value,
        " over "@,
        change.over,
        " s"@,
        Seq::<char>::empty(),
        tail,
    );
    assert(notation::line(LineView::Change(change)) + tail =~= word + (seq![' '] + (value
        + tail)));
    lemma_word_line(word, value, tail);
    lemma_other_words(word);
    lemma_line_rest(word + (seq![' '] + (value + tail)));
    lemma_keyed(word, word, value, tail);
    assert(word.is_prefix_of(word)) by {
        assert(word.subrange(0, 6) =~= word);
    }
}

} // verus!
