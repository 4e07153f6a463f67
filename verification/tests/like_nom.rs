use hltas::read::{
    leading, line_ending, multispace0, not_line_ending, recognize_float, some_of, space1,
    ErrorKind, Rule,
};
use hltas::grammar::Class;

type Outside<'a> = nom::IResult<&'a str, &'a str, (&'a str, nom::error::ErrorKind)>;

fn chars(text: &str) -> Vec<char> {
    text.chars().collect()
}

/// How many characters the outside rule left, or where it failed.
fn outside(result: Outside) -> Result<usize, usize> {
    match result {
        Ok((rest, _)) => Ok(rest.chars().count()),
        Err(nom::Err::Error((rest, _))) | Err(nom::Err::Failure((rest, _))) => {
            Err(rest.chars().count())
        }
        Err(nom::Err::Incomplete(_)) => unreachable!(),
    }
}

const SAMPLES: [&str; 40] = [
    "", " ", "  \t x", "\t", "x", "\n", "\r\n", "\r", "\rx", "\n\n", "a\nb", "a\r\nb", "a\rb",
    "abc", "  \r\n \n\tx", "1", "12", "12x", "1.", "1.5", ".5", ".", "-", "-1", "+1", "1e5",
    "1e", "1e+", "1e-5x", "1.e5", "1.5e", "e5", "-.5e-3|", "- 1", "é", "1é", "0.001|-", "1.2.3",
    "..1", "++1",
];

#[test]
fn recognizes_numbers_as_nom_does() {
    for text in SAMPLES {
        let input = chars(text);
        let inside = match recognize_float(&input) {
            Ok((rest, _)) => Ok(rest.len()),
            Err(e) => Err(e.remaining),
        };
        assert_eq!(inside, outside(nom::number::complete::recognize_float(text)), "{:?}", text);
    }
}

#[test]
fn reads_the_rest_of_a_line_as_nom_does() {
    for text in SAMPLES {
        let input = chars(text);
        let inside = match not_line_ending(&input) {
            Ok((rest, _)) => Ok(rest.len()),
            Err(e) => {
                assert_eq!(e.kind, ErrorKind::Other(Rule::Tag));
                Err(e.remaining)
            }
        };
        assert_eq!(inside, outside(nom::character::complete::not_line_ending(text)), "{:?}", text);
    }
}

#[test]
fn reads_line_endings_and_spaces_as_nom_does() {
    for text in SAMPLES {
        let input = chars(text);
        let inside = match line_ending(&input) {
            Ok((rest, _)) => Ok(rest.len()),
            Err(e) => Err(e.remaining),
        };
        assert_eq!(inside, outside(nom::character::complete::line_ending(text)), "{:?}", text);

        let inside = match space1(&input) {
            Ok((rest, _)) => Ok(rest.len()),
            Err(e) => Err(e.remaining),
        };
        assert_eq!(inside, outside(nom::character::complete::space1(text)), "{:?}", text);

        let inside = Ok(multispace0(&input).len());
        assert_eq!(inside, outside(nom::character::complete::multispace0(text)), "{:?}", text);

        let inside = match some_of(&input, Class::Digit, Rule::Digit) {
            Ok((rest, _)) => Ok(rest.len()),
            Err(e) => Err(e.remaining),
        };
        assert_eq!(inside, outside(nom::character::complete::digit1(text)), "{:?}", text);
    }
}

#[test]
fn counts_the_characters_of_a_class() {
    assert_eq!(leading(&chars("abc_1 x"), Class::Name), 5);
    assert_eq!(leading(&chars("é"), Class::Name), 0);
    assert_eq!(leading(&chars("ab|c"), Class::NotBar), 2);
    assert_eq!(leading(&chars("a\rb\nc"), Class::NotFeed), 3);
    assert_eq!(leading(&chars("a\rb\nc"), Class::NotBreak), 1);
    assert_eq!(leading(&chars(" \t\r\nx"), Class::Blank), 4);
    assert_eq!(leading(&chars(" \t\r\nx"), Class::Space), 2);
    assert_eq!(leading(&chars("0129a"), Class::Digit), 4);
}
