//! The parts of a scene description that are whole numbers and names: the
//! resolution, where the fields of a shape stand on its line, and the names
//! of the files that the picture is written to.
use crate::renderdata::RenderData;
use vstd::prelude::*;
use vstd::string::*;

verus! {

/// Whether `c` is one of the digits `0` to `9`.
pub open spec fn is_digit(c: char) -> bool {
    48 <= c as u32 <= 57
}

/// The number that the digits `s` write, most significant digit first.
pub open spec fn digits_value(s: Seq<char>) -> nat
    decreases s.len(),
{
    if s.len() == 0 {
        0
    } else {
        10 * digits_value(s.drop_last()) + (s.last() as u32 - 48) as nat
    }
}

/// Whether `s` holds digits only.
pub open spec fn all_digits(s: Seq<char>) -> bool {
    forall|i: int| 0 <= i < s.len() ==> is_digit(#[trigger] s[i])
}

/// The digits of `s`: all of it but a plus sign in front.
pub open spec fn unsigned_part(s: Seq<char>) -> Seq<char> {
    if s.len() > 0 && s[0] == '+' {
        s.subrange(1, s.len() as int)
    } else {
        s
    }
}

/// The number that `s` writes: a plus sign or none, then one decimal digit or
/// more, and nothing else. The number must fit a `usize`.
pub open spec fn usize_of(s: Seq<char>) -> Option<usize> {
    let digits = unsigned_part(s);
    if digits.len() > 0 && all_digits(digits) && digits_value(digits) <= usize::MAX {
        Some(digits_value(digits) as usize)
    } else {
        None
    }
}

/// The resolution that a width and a height make: both must be numbers, and
/// none of them zero.
pub open spec fn resolution_of(width: Seq<char>, height: Seq<char>) -> Option<(usize, usize)> {
    match (usize_of(width), usize_of(height)) {
        (Some(w), Some(h)) => if w == 0 || h == 0 {
            None
        } else {
            Some((w, h))
        },
        _ => None,
    }
}

/// What is left of `s` when `.ppm` is taken from its end as often as it
/// stands there.
pub open spec fn without_ppm(s: Seq<char>) -> Seq<char>
    decreases s.len(),
{
    if ends_with_ppm(s, s.len() as int) {
        without_ppm(s.subrange(0, s.len() - 4))
    } else {
        s
    }
}

/// Whether the four characters of `s` before position `end` are `.ppm`.
pub open spec fn ends_with_ppm(s: Seq<char>, end: int) -> bool {
    &&& 4 <= end <= s.len()
    &&& s[end - 4] == '.'
    &&& s[end - 3] == 'p'
    &&& s[end - 2] == 'p'
    &&& s[end - 1] == 'm'
}

/// The name of the PNG file that goes with the PPM file `ppm`.
pub open spec fn png_name_of(ppm: Seq<char>) -> Seq<char> {
    without_ppm(ppm) + seq!['.', 'p', 'n', 'g']
}

/// What `s` is without the white space at its ends.
pub uninterp spec fn trimmed(s: Seq<char>) -> Seq<char>;

/// Calls `str::trim`, which gives the text between the leading and the
/// trailing white space. The contract claims only that what is left depends
/// on the characters of the text alone.
#[verifier::external_body]
pub(crate) fn trim_text<'a>(text: &'a str) -> (rest: &'a str)
    ensures
        rest@ == trimmed(text@),
{
    text.trim()
}

/// A longer run of digits does not write a smaller number.
pub proof fn lemma_digits_grow(s: Seq<char>, k: int)
    requires
        0 <= k <= s.len(),
    ensures
        digits_value(s.subrange(0, k)) <= digits_value(s),
    decreases s.len() - k,
{
    if k == s.len() {
        assert(s.subrange(0, k) =~= s);
    } else {
        lemma_digits_grow(s.drop_last(), k);
        assert(s.drop_last().subrange(0, k) =~= s.subrange(0, k));
    }
}

/// Reads a number as `usize_of` describes it.
pub fn parse_usize(text: &str) -> (number: Option<usize>)
    ensures
        number == usize_of(text@),
{
    let n = text.unicode_len();
    let mut i: usize = 0;
    if n > 0 && text.get_char(0) == '+' {
        i = 1;
    }
    let start = i;
    let ghost digits = unsigned_part(text@);
    if i == n {
        return None;
    }
    let mut value: usize = 0;
    while i < n
        invariant
            start <= i <= n,
            start <= 1,
            n == text@.len(),
            digits == unsigned_part(text@),
            digits == text@.subrange(start as int, n as int),
            all_digits(digits.subrange(0, i - start)),
            value == digits_value(digits.subrange(0, i - start)),
        decreases n - i,
    {
        let c = text.get_char(i);
        let code = c as u32;
        if code < 48 || code > 57 {
            proof {
                assert(digits[i - start] == c);
                assert(!is_digit(digits[i - start]));
            }
            return None;
        }
        let digit = (code - 48) as usize;
        proof {
            let longer = digits.subrange(0, i - start + 1);
            assert(longer.drop_last() =~= digits.subrange(0, i - start));
            assert(longer.last() == c);
            assert(digits_value(longer) == 10 * value + digit);
            lemma_digits_grow(digits, i - start + 1);
            assert forall|j: int| 0 <= j < longer.len() implies is_digit(
                #[trigger] longer[j],
            ) by {
                if j < i - start {
                    assert(longer[j] == digits.subrange(0, i - start)[j]);
                }
            }
        }
        let tenfold = match value.checked_mul(10) {
            Some(tenfold) => tenfold,
            None => {
                return None;
            },
        };
        value = match tenfold.checked_add(digit) {
            Some(sum) => sum,
            None => {
                return None;
            },
        };
        i += 1;
    }
    proof {
        assert(digits.subrange(0, n - start) =~= digits);
    }
    Some(value)
}

/// Reads the resolution from the two fields of its line, white space at
/// their ends taken off: `None` unless both are numbers other than zero.
pub fn parse_resolution(width: &str, height: &str) -> (resolution: Option<(usize, usize)>)
    ensures
        resolution == resolution_of(width@, height@),
{
    let width = match parse_usize(width) {
        Some(width) => width,
        None => {
            return None;
        },
    };
    let height = match parse_usize(height) {
        Some(height) => height,
        None => {
            return None;
        },
    };
    if width == 0 || height == 0 {
        return None;
    }
    Some((width, height))
}

impl RenderData {
    /// Reads the resolution from the words of its line: the keyword, the
    /// width and the height. `None` unless there are three words, and the
    /// second and the third, without the white space at their ends, are
    /// numbers other than zero.
    pub fn read_resolution(tokens: &Vec<&str>) -> (resolution: Option<(usize, usize)>)
        ensures
            tokens@.len() != 3 ==> resolution is None,
            tokens@.len() == 3 ==> resolution == resolution_of(
                trimmed(tokens@[1]@),
                trimmed(tokens@[2]@),
            ),
    {
        if tokens.len() != 3 {
            return None;
        }
        parse_resolution(trim_text(tokens[1]), trim_text(tokens[2]))
    }
}

/// Where the fields of a shape stand among the numbers of its line.
#[derive(Debug, Clone, Copy, PartialEq, Eq, Structural)]
pub struct ShapeLayout {
    /// How many rotation angles the line gives: about the x axis, then the y
    /// axis, then the z axis.
    pub rotations: usize,
    /// Where the three numbers of the colour start.
    pub color_start: usize,
    /// Where the five numbers of the lighting start.
    pub lighting_start: usize,
}

/// Where the fields of a shape stand on a line of `token_count` words: two
/// words of name, three numbers of position, three of scale, up to three
/// angles, three numbers of colour and five of lighting.
pub fn shape_layout(token_count: usize) -> (layout: Option<ShapeLayout>)
    ensures
        layout is Some <==> 16 <= token_count <= 19,
        layout is Some ==> layout.unwrap() == (ShapeLayout {
            rotations: (token_count - 16) as usize,
            color_start: (token_count - 10) as usize,
            lighting_start: (token_count - 7) as usize,
        }),
{
    if token_count < 16 || token_count > 19 {
        return None;
    }
    let rotations = token_count - 16;
    Some(ShapeLayout { rotations, color_start: 6 + rotations, lighting_start: 9 + rotations })
}

/// The name of the PNG file that goes with the PPM file `ppm`: the name
/// without every `.ppm` at its end, and `.png` behind it.
pub fn png_file_name(ppm: &str) -> (png: String)
    ensures
        png@ == png_name_of(ppm@),
{
    let mut end = ppm.unicode_len();
    proof {
        assert(ppm@.subrange(0, end as int) =~= ppm@);
    }
    while end >= 4 && ppm.get_char(end - 4) == '.' && ppm.get_char(end - 3) == 'p' && ppm.get_char(
        end - 2,
    ) == 'p' && ppm.get_char(end - 1) == 'm'
        invariant
            end <= ppm@.len(),
            without_ppm(ppm@) == without_ppm(ppm@.subrange(0, end as int)),
        decreases end,
    {
        proof {
            let here = ppm@.subrange(0, end as int);
            assert(ends_with_ppm(here, here.len() as int));
            assert(here.subrange(0, here.len() - 4) =~= ppm@.subrange(0, end - 4));
        }
        end -= 4;
    }
    proof {
        let here = ppm@.subrange(0, end as int);
        assert(!ends_with_ppm(here, here.len() as int));
        reveal_strlit(".png");
        assert(".png"@ =~= seq!['.', 'p', 'n', 'g']);
    }
    String::from_str(ppm.substring_char(0, end)).concat(".png")
}

} // verus!
