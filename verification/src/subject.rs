use vstd::prelude::*;

use vstd::string::StringSliceAdditionalSpecFns;
use vstd::utf8::{
    decode_utf8, decode_utf8_split, encode_scalar, encode_utf8, encode_utf8_decode_utf8,
    encode_utf8_valid_utf8, is_ascii_chars, is_ascii_chars_encode_utf8, is_char_boundary,
    valid_utf8,
};

use crate::charclass::{
    digit_char, find_char, first_index_from, is_digit_byte, is_letter_byte, lemma_first_index,
    letter_char, low_byte,
};

verus! {

/// A plain subject value, such as `2xl` or `1/2`.
#[derive(Debug, PartialEq, Eq, Clone, Copy)]
pub struct Value<'a>(pub &'a str);

/// An arbitrary css value written between square brackets, such as the
/// `#fff` of `[#fff]`.
#[derive(Debug, PartialEq, Eq, Clone, Copy)]
pub struct Css<'a>(pub &'a str);

/// The argument that follows a plugin name in a directive.
#[derive(Debug, PartialEq, Eq, Clone, Copy)]
pub enum SubjectValue<'a> {
    Value(Value<'a>),
    Css(Css<'a>),
}

/// What kind of check a parse failed on.
#[derive(Debug, PartialEq, Eq, Clone, Copy)]
pub enum ErrorKind {
    /// An expected character (`[` or `]`) was not found.
    Char,
    /// A letter followed a `/` or `.` in a numeric value.
    AlphaNumeric,
}

/// A parse failure: the input that remained where the failing check was
/// made, and the kind of that check.
#[derive(Debug, PartialEq, Eq, Clone, Copy)]
pub struct ParseError<'a> {
    pub input: &'a str,
    pub kind: ErrorKind,
}

impl<'a> SubjectValue<'a> {
    /// The text of the value, without brackets.
    pub open spec fn text(&self) -> Seq<char> {
        match self {
            SubjectValue::Value(Value(s)) => s@,
            SubjectValue::Css(Css(s)) => s@,
        }
    }

    /// The text of the value, without brackets.
    pub fn as_str(&self) -> (r: &str)
        ensures
            r@ == self.text(),
    {
        match self {
            SubjectValue::Value(Value(s)) => s,
            SubjectValue::Css(Css(s)) => s,
        }
    }

    /// The value as it is displayed: its text, without brackets.
    pub fn to_string(&self) -> (r: String)
        ensures
            r@ == self.text(),
    {
        String::from_str(self.as_str())
    }
}

/// The states of the scanner that reads a plain value.
#[derive(Debug, PartialEq, Eq, Structural, Clone, Copy)]
pub enum Mode {
    /// The initial state, where digits and dashes are read.
    Neutral,
    /// A `/` or `.` was read from the neutral state: a fraction or decimal.
    Number,
    /// A letter was read: `/` and `.` end the value here.
    Text,
}

/// What the scanner does on one character.
pub enum Step {
    /// The character belongs to the value; go on in this state.
    Continue(Mode),
    /// The value ends before this character.
    Stop,
    /// The input is refused.
    Reject,
}

/// A `/` or a `.`: what starts the fractional part of a number.
pub open spec fn is_separator(c: char) -> bool {
    c == '/' || c == '.'
}

/// A character that counts as a letter.
pub open spec fn is_letter(c: char) -> bool {
    is_letter_byte(low_byte(c))
}

/// A character that counts as a digit.
pub open spec fn is_digit(c: char) -> bool {
    is_digit_byte(low_byte(c))
}

/// One transition of the scanner.
pub open spec fn step(mode: Mode, c: char) -> Step {
    if mode != Mode::Text && is_separator(c) {
        Step::Continue(Mode::Number)
    } else if mode == Mode::Number && is_letter(c) {
        Step::Reject
    } else if is_letter(c) {
        Step::Continue(Mode::Text)
    } else if is_digit(c) || c == '-' {
        Step::Continue(mode)
    } else {
        Step::Stop
    }
}

/// The outcome of scanning a plain value.
pub enum Scan {
    /// The value is the first `n` characters.
    Cut(nat),
    /// The input is refused.
    Reject,
}

/// Runs the scanner on `s` from position `i` in state `mode`.
pub open spec fn scan_from(s: Seq<char>, i: int, mode: Mode) -> Scan
    decreases s.len() - i,
{
    if i < 0 || i >= s.len() {
        Scan::Cut(s.len())
    } else {
        match step(mode, s[i]) {
            Step::Continue(next) => scan_from(s, i + 1, next),
            Step::Stop => Scan::Cut(i as nat),
            Step::Reject => Scan::Reject,
        }
    }
}

/// Runs the scanner on the whole of `s` from the neutral state.
pub open spec fn scan(s: Seq<char>) -> Scan {
    scan_from(s, 0, Mode::Neutral)
}

/// Whether `s` holds a letter.
pub open spec fn has_letter(s: Seq<char>) -> bool {
    exists|i: int| 0 <= i < s.len() && is_letter(#[trigger] s[i])
}

/// Whether `s` holds a `/` or a `.`.
pub open spec fn has_separator(s: Seq<char>) -> bool {
    exists|i: int| 0 <= i < s.len() && is_separator(#[trigger] s[i])
}

/// What the scanned part `s[i..k]` holds, given the state at `i`: a word
/// holds no separator, a number no letter, and a value never both.
pub open spec fn scanned_shape(s: Seq<char>, i: int, k: int, mode: Mode) -> bool {
    &&& mode == Mode::Text ==> !has_separator(s.subrange(i, k))
    &&& mode == Mode::Number ==> !has_letter(s.subrange(i, k))
    &&& !(has_letter(s.subrange(i, k)) && has_separator(s.subrange(i, k)))
}

proof fn lemma_scan_shape(s: Seq<char>, i: int, mode: Mode)
    requires
        0 <= i <= s.len(),
    ensures
        scan_from(s, i, mode) matches Scan::Cut(k) ==> i <= k <= s.len() && scanned_shape(
            s,
            i,
            k as int,
            mode,
        ),
    decreases s.len() - i,
{
    if i < s.len() {
        let c = s[i];
        match step(mode, c) {
            Step::Continue(next) => {
                lemma_scan_shape(s, i + 1, next);
                if let Scan::Cut(k) = scan_from(s, i + 1, next) {
                    let whole = s.subrange(i, k as int);
                    let tail = s.subrange(i + 1, k as int);
                    assert(whole =~= seq![c] + tail);
                    assert forall|j: int| 0 <= j < tail.len() implies tail[j] == #[trigger] whole[j
                        + 1] by {}
                    if has_letter(whole) {
                        let j = choose|j: int| 0 <= j < whole.len() && is_letter(#[trigger] whole[j]);
                        if j > 0 {
                            assert(tail[j - 1] == whole[j]);
                        }
                    }
                    if has_separator(whole) {
                        let j = choose|j: int|
                            0 <= j < whole.len() && is_separator(#[trigger] whole[j]);
                        if j > 0 {
                            assert(tail[j - 1] == whole[j]);
                        }
                    }
                    if has_letter(tail) {
                        let j = choose|j: int| 0 <= j < tail.len() && is_letter(#[trigger] tail[j]);
                        assert(whole[j + 1] == tail[j]);
                    }
                    if has_separator(tail) {
                        let j = choose|j: int| 0 <= j < tail.len() && is_separator(#[trigger] tail[j]);
                        assert(whole[j + 1] == tail[j]);
                    }
                }
            },
            Step::Stop => {
                assert(s.subrange(i, i) =~= Seq::<char>::empty());
            },
            Step::Reject => {},
        }
    } else {
        assert(s.subrange(i, i) =~= Seq::<char>::empty());
    }
}

/// A character that may stand in a number: a digit, a dash, or a `/` or `.`.
pub open spec fn is_number_char(c: char) -> bool {
    is_digit(c) || c == '-' || is_separator(c)
}

/// From position `i` on, a letter follows a run of number characters, and
/// that run holds a `/` or `.` unless the scanner is already reading a
/// number.
pub open spec fn letter_after_point(s: Seq<char>, i: int, in_number: bool) -> bool {
    exists|k: int|
        i <= k < s.len() && is_letter(#[trigger] s[k]) && (in_number || has_separator(
            s.subrange(i, k),
        )) && forall|m: int| i <= m < k ==> is_number_char(s[m])
}

proof fn lemma_char_classes(c: char)
    ensures
        is_letter(c) ==> !is_number_char(c),
{
    if is_letter(c) {
        assert(low_byte('/') == 47u8);
        assert(low_byte('.') == 46u8);
        assert(low_byte('-') == 45u8);
    }
}

proof fn lemma_text_state_accepts(s: Seq<char>, i: int)
    requires
        0 <= i <= s.len(),
    ensures
        scan_from(s, i, Mode::Text) is Cut,
    decreases s.len() - i,
{
    if i < s.len() {
        lemma_text_state_accepts(s, i + 1);
    }
}

proof fn lemma_reject_from(s: Seq<char>, i: int, mode: Mode)
    requires
        0 <= i <= s.len(),
        mode != Mode::Text,
    ensures
        scan_from(s, i, mode) is Reject <==> letter_after_point(s, i, mode == Mode::Number),
    decreases s.len() - i,
{
    if i < s.len() {
        let c = s[i];
        lemma_char_classes(c);
        let in_number = mode == Mode::Number;
        if is_separator(c) {
            lemma_reject_from(s, i + 1, Mode::Number);
            if letter_after_point(s, i + 1, true) {
                let k = choose|k: int|
                    i + 1 <= k < s.len() && is_letter(#[trigger] s[k]) && (true || has_separator(
                        s.subrange(i + 1, k),
                    )) && forall|m: int| i + 1 <= m < k ==> is_number_char(s[m]);
                assert(s.subrange(i, k)[0] == c);
                assert(letter_after_point(s, i, in_number));
            }
            if letter_after_point(s, i, in_number) {
                let k = choose|k: int|
                    i <= k < s.len() && is_letter(#[trigger] s[k]) && (in_number || has_separator(
                        s.subrange(i, k),
                    )) && forall|m: int| i <= m < k ==> is_number_char(s[m]);
                assert(k != i);
                assert(letter_after_point(s, i + 1, true));
            }
        } else if in_number && is_letter(c) {
            assert(forall|m: int| i <= m < i ==> is_number_char(s[m]));
            assert(letter_after_point(s, i, in_number));
        } else if is_letter(c) {
            lemma_text_state_accepts(s, i + 1);
            if letter_after_point(s, i, in_number) {
                let k = choose|k: int|
                    i <= k < s.len() && is_letter(#[trigger] s[k]) && (in_number || has_separator(
                        s.subrange(i, k),
                    )) && forall|m: int| i <= m < k ==> is_number_char(s[m]);
                if k == i {
                    assert(!has_separator(s.subrange(i, k)));
                } else {
                    assert(is_number_char(s[i]));
                }
            }
        } else if is_digit(c) || c == '-' {
            lemma_reject_from(s, i + 1, mode);
            if letter_after_point(s, i + 1, in_number) {
                let k = choose|k: int|
                    i + 1 <= k < s.len() && is_letter(#[trigger] s[k]) && (in_number
                        || has_separator(s.subrange(i + 1, k))) && forall|m: int|
                        i + 1 <= m < k ==> is_number_char(s[m]);
                if !in_number {
                    let j = choose|j: int|
                        0 <= j < s.subrange(i + 1, k).len() && is_separator(
                            #[trigger] s.subrange(i + 1, k)[j],
                        );
                    assert(s.subrange(i, k)[j + 1] == s.subrange(i + 1, k)[j]);
                }
                assert(letter_after_point(s, i, in_number));
            }
            if letter_after_point(s, i, in_number) {
                let k = choose|k: int|
                    i <= k < s.len() && is_letter(#[trigger] s[k]) && (in_number || has_separator(
                        s.subrange(i, k),
                    )) && forall|m: int| i <= m < k ==> is_number_char(s[m]);
                assert(k != i);
                if !in_number {
                    let j = choose|j: int|
                        0 <= j < s.subrange(i, k).len() && is_separator(
                            #[trigger] s.subrange(i, k)[j],
                        );
                    assert(j != 0);
                    assert(s.subrange(i + 1, k)[j - 1] == s.subrange(i, k)[j]);
                }
                assert(letter_after_point(s, i + 1, in_number));
            }
        } else {
            if letter_after_point(s, i, in_number) {
                let k = choose|k: int|
                    i <= k < s.len() && is_letter(#[trigger] s[k]) && (in_number || has_separator(
                        s.subrange(i, k),
                    )) && forall|m: int| i <= m < k ==> is_number_char(s[m]);
                if k == i {
                } else {
                    assert(is_number_char(s[i]));
                }
            }
        }
    }
}

/// A plain value is refused exactly when, in the run of digits, dashes,
/// `/` and `.` that starts the input, a `/` or `.` is followed by a
/// letter: once the scanner is reading a fraction or a decimal, it does
/// not leave that state for a word.
pub proof fn lemma_refused_exactly_when_letter_follows_point(s: Seq<char>)
    ensures
        scan(s) is Reject <==> letter_after_point(s, 0, false),
{
    lemma_reject_from(s, 0, Mode::Neutral);
}

/// A character that may stand in a plain value: a letter, a digit, a dash,
/// or a `/` or `.`.
pub open spec fn is_value_char(c: char) -> bool {
    is_letter(c) || is_digit(c) || c == '-' || is_separator(c)
}

proof fn lemma_cut_chars(s: Seq<char>, i: int, mode: Mode)
    requires
        0 <= i <= s.len(),
    ensures
        scan_from(s, i, mode) matches Scan::Cut(k) ==> {
            &&& i <= k <= s.len()
            &&& forall|m: int| i <= m < k ==> is_value_char(#[trigger] s[m])
            &&& k < s.len() ==> {
                &&& !is_letter(s[k as int])
                &&& !is_digit(s[k as int])
                &&& s[k as int] != '-'
                &&& !(mode == Mode::Text || has_letter(s.subrange(i, k as int))) ==> !is_separator(
                    s[k as int],
                )
            }
        },
    decreases s.len() - i,
{
    if i < s.len() {
        let c = s[i];
        match step(mode, c) {
            Step::Continue(next) => {
                lemma_cut_chars(s, i + 1, next);
                if let Scan::Cut(k) = scan_from(s, i + 1, next) {
                    let whole = s.subrange(i, k as int);
                    let tail = s.subrange(i + 1, k as int);
                    if has_letter(tail) {
                        let j = choose|j: int| 0 <= j < tail.len() && is_letter(#[trigger] tail[j]);
                        assert(whole[j + 1] == tail[j]);
                    }
                    if !(mode == Mode::Text || has_letter(whole)) {
                        if is_letter(c) {
                            assert(whole[0] == c);
                        }
                    }
                }
            },
            Step::Stop => {
                assert(s.subrange(i, i) =~= Seq::<char>::empty());
            },
            Step::Reject => {},
        }
    }
}

/// A plain value is the longest run from the start of the input that the
/// scanner may read: each of its characters is a letter, a digit, a dash,
/// a `/` or a `.`, and the character it stops at is no letter, digit or
/// dash, nor a `/` or `.` while no letter has been read.
pub proof fn lemma_value_is_the_longest_run(s: Seq<char>)
    ensures
        scan(s) matches Scan::Cut(k) ==> {
            &&& k <= s.len()
            &&& forall|m: int| 0 <= m < k ==> is_value_char(#[trigger] s[m])
            &&& k < s.len() ==> {
                &&& !is_letter(s[k as int])
                &&& !is_digit(s[k as int])
                &&& s[k as int] != '-'
                &&& !has_letter(s.take(k as int)) ==> !is_separator(s[k as int])
            }
        },
{
    lemma_cut_chars(s, 0, Mode::Neutral);
    if let Scan::Cut(k) = scan(s) {
        assert(s.subrange(0, k as int) =~= s.take(k as int));
    }
}

/// Whenever the scanner reads a non-empty plain value, that value is the
/// subject value read, whatever follows it, the end of the input included.
pub proof fn lemma_plain_value_is_read(s: Seq<char>)
    ensures
        scan(s) matches Scan::Cut(k) ==> (k > 0 ==> subject_shape(s) == Shape::Word(k)),
{
}

/// Once the scanner reads a number, every character it goes on with keeps
/// it reading a number.
pub proof fn lemma_number_state_is_never_left(c: char)
    ensures
        step(Mode::Number, c) matches Step::Continue(next) ==> next == Mode::Number,
{
}

/// How a subject value is read from the start of an input.
pub enum Shape {
    /// A plain value: the first `n` characters.
    Word(nat),
    /// A bracketed css value whose closing `]` is at this position.
    Bracketed(nat),
    /// No value: the check on `]` or `[` failed at this position.
    Failed(nat),
}

/// How `s` reads as a bracketed css value.
pub open spec fn bracketed_shape(s: Seq<char>) -> Shape {
    if s.len() > 0 && s[0] == '[' {
        let j = first_index_from(s, 1, ']');
        if j < s.len() {
            Shape::Bracketed(j)
        } else {
            Shape::Failed(s.len())
        }
    } else {
        Shape::Failed(0)
    }
}

/// How `s` reads as a subject value: a non-empty plain value when there is
/// one, else a bracketed css value.
pub open spec fn subject_shape(s: Seq<char>) -> Shape {
    match scan(s) {
        Scan::Cut(k) => if k > 0 {
            Shape::Word(k)
        } else {
            bracketed_shape(s)
        },
        Scan::Reject => bracketed_shape(s),
    }
}

/// Where reading a plain value cuts `s` when the scanner stopped after
/// `k` characters, as a byte offset: the count of characters read, taken as
/// a byte offset, or the end of `s` when all of it was read. On ASCII text
/// the two agree; on other text the cut falls `k` bytes in.
pub open spec fn cut_offset(s: &str, k: nat) -> int {
    if k < s@.len() {
        k as int
    } else {
        s.spec_bytes().len() as int
    }
}

/// Whether reading a plain value from `s` cuts it on a character boundary;
/// on other inputs the cut would split a character.
pub open spec fn value_cut_fits(s: &str) -> bool {
    scan(s@) matches Scan::Cut(k) ==> is_char_boundary(s.spec_bytes(), cut_offset(s, k))
}

proof fn lemma_encode_concat(a: Seq<char>, b: Seq<char>)
    ensures
        encode_utf8(a + b) == encode_utf8(a) + encode_utf8(b),
    decreases a.len(),
{
    if a.len() == 0 {
        assert(a + b =~= b);
        assert(encode_utf8(a) =~= Seq::<u8>::empty());
        assert(encode_utf8(a) + encode_utf8(b) =~= encode_utf8(b));
    } else {
        lemma_encode_concat(a.drop_first(), b);
        assert((a + b).drop_first() =~= a.drop_first() + b);
        assert((a + b)[0] == a[0]);
        assert(encode_utf8(a + b) =~= encode_scalar(a[0] as u32) + encode_utf8(a.drop_first() + b));
        assert(encode_utf8(a) + encode_utf8(b) =~= encode_scalar(a[0] as u32) + (encode_utf8(
            a.drop_first(),
        ) + encode_utf8(b)));
    }
}

proof fn lemma_encode_len(a: Seq<char>)
    ensures
        encode_utf8(a).len() >= a.len(),
        a.len() == 0 <==> encode_utf8(a).len() == 0,
    decreases a.len(),
{
    if a.len() > 0 {
        lemma_encode_len(a.drop_first());
        assert(encode_scalar(a[0] as u32).len() >= 1);
    }
}

/// The text of a string whose bytes are a piece of `s`'s bytes cut at a
/// character boundary.
proof fn lemma_split_text(s: &str, value: &str, rest: &str, cut: int)
    requires
        is_char_boundary(s.spec_bytes(), cut),
        value.spec_bytes() == s.spec_bytes().take(cut),
        rest.spec_bytes() == s.spec_bytes().skip(cut),
    ensures
        value@ + rest@ == s@,
        value@.len() <= cut,
        value@.len() == 0 <==> cut == 0,
{
    broadcast use encode_utf8_valid_utf8, encode_utf8_decode_utf8;

    let bytes = s.spec_bytes();
    assert(valid_utf8(bytes));
    decode_utf8_split(bytes, cut);
    assert(bytes.subrange(0, cut) == bytes.take(cut));
    assert(bytes.subrange(cut, bytes.len() as int) == bytes.skip(cut));
    assert(decode_utf8(encode_utf8(value@)) == value@);
    assert(decode_utf8(encode_utf8(rest@)) == rest@);
    assert(decode_utf8(encode_utf8(s@)) == s@);
    lemma_encode_len(value@);
    lemma_encode_len(s@);
    if cut > bytes.len() {
        assert(false);
    }
}

/// On a start of `s` made of ASCII characters, a cut after `k` characters
/// is the cut after `k` bytes.
proof fn lemma_ascii_cut(s: &str, value: &str, rest: &str, k: int)
    requires
        0 <= k <= s@.len(),
        is_ascii_chars(s@.take(k)),
        value.spec_bytes() == s.spec_bytes().take(k),
        rest.spec_bytes() == s.spec_bytes().skip(k),
    ensures
        value@ == s@.take(k),
        rest@ == s@.skip(k),
{
    broadcast use encode_utf8_decode_utf8;

    assert(s@ =~= s@.take(k) + s@.skip(k));
    lemma_encode_concat(s@.take(k), s@.skip(k));
    is_ascii_chars_encode_utf8(s@.take(k));
    let left = encode_utf8(s@.take(k));
    let right = encode_utf8(s@.skip(k));
    assert(s.spec_bytes() == left + right);
    assert(s.spec_bytes().take(k) =~= left);
    assert(s.spec_bytes().skip(k) =~= right);
    assert(decode_utf8(encode_utf8(value@)) == value@);
    assert(decode_utf8(encode_utf8(rest@)) == rest@);
}

/// A start of a scanned part holds no letter and no separator together.
proof fn lemma_shape_prefix(s: Seq<char>, m: int, k: int)
    requires
        0 <= m <= k <= s.len(),
        !(has_letter(s.take(k)) && has_separator(s.take(k))),
    ensures
        !(has_letter(s.take(m)) && has_separator(s.take(m))),
{
    if has_letter(s.take(m)) && has_separator(s.take(m)) {
        let i = choose|i: int| 0 <= i < s.take(m).len() && is_letter(#[trigger] s.take(m)[i]);
        let j = choose|j: int| 0 <= j < s.take(m).len() && is_separator(#[trigger] s.take(m)[j]);
        assert(s.take(k)[i] == s.take(m)[i]);
        assert(s.take(k)[j] == s.take(m)[j]);
    }
}

impl<'a> SubjectValue<'a> {
    /// Reads a plain value from the start of `s`: digits, dashes and letters,
    /// with `/` and `.` allowed before any letter (a fraction or a decimal)
    /// but not after one. Once a `/` or `.` has been read before any letter,
    /// a letter is refused; once a letter has been read, a `/` or `.` ends the
    /// value. On success, returns the rest of the input and the value read,
    /// which may be empty. The input is cut where `cut_offset` says: when the
    /// scanner stops early, the count of characters read is taken as a byte
    /// offset, so the value and the rest are the bytes before and after it.
    /// On ASCII input this is the cut after the characters read; inputs on
    /// which the cut would split a character are not accepted.
    pub fn parse_value(s: &'a str) -> (r: Result<(&'a str, &'a str), ParseError<'a>>)
        requires
            value_cut_fits(s),
        ensures
            match scan(s@) {
                Scan::Cut(k) => r matches Ok((rest, value)) && value.spec_bytes()
                    == s.spec_bytes().take(cut_offset(s, k)) && rest.spec_bytes()
                    == s.spec_bytes().skip(cut_offset(s, k)),
                Scan::Reject => r matches Err(e) && e.input@ == s@ && e.kind == ErrorKind::AlphaNumeric,
            },
            scan(s@) matches Scan::Cut(k) ==> (is_ascii_chars(s@.take(k as int)) ==> (r matches Ok(
                (rest, value),
            ) && value@ == s@.take(k as int) && rest@ == s@.skip(k as int))),
            scan(s@) matches Scan::Cut(k) ==> (r matches Ok((rest, value)) && value@.len() <= k && (
            value@.len() == 0 <==> k == 0)),
            r matches Ok((rest, value)) ==> value@ + rest@ == s@ && !(has_letter(value@)
                && has_separator(value@)),
    {
        proof {
            lemma_scan_shape(s@, 0, Mode::Neutral);
            lemma_encode_len(s@);
            assert(s@.subrange(0, s@.len() as int) =~= s@.take(s@.len() as int));
        }
        let n = s.unicode_len();
        let mut state = Mode::Neutral;
        let mut i: usize = 0;
        while i < n
            invariant
                n == s@.len(),
                i <= n,
                scan_from(s@, i as int, state) == scan(s@),
                value_cut_fits(s),
                s.spec_bytes().len() >= n,
            decreases n - i,
        {
            let c = s.get_char(i);
            let separator = c == '/' || c == '.';
            let letter = letter_char(c);
            if state != Mode::Text && separator {
                state = Mode::Number;
            } else if state == Mode::Number && letter {
                return Err(ParseError { input: s, kind: ErrorKind::AlphaNumeric });
            } else if letter {
                state = Mode::Text;
            } else if digit_char(c) || c == '-' {
            } else {
                assert(scan(s@) == Scan::Cut(i as nat));
                assert(cut_offset(s, i as nat) == i);
                let (value, rest) = s.split_at(i);
                proof {
                    let k = i as int;
                    assert(value.spec_bytes() == s.spec_bytes().take(k));
                    assert(rest.spec_bytes() == s.spec_bytes().skip(k));
                    lemma_split_text(s, value, rest, k);
                    if is_ascii_chars(s@.take(k)) {
                        lemma_ascii_cut(s, value, rest, k);
                    }
                    assert(s@.take(value@.len() as int) =~= value@);
                    lemma_scan_shape(s@, 0, Mode::Neutral);
                    assert(s@.subrange(0, k) =~= s@.take(k));
                    lemma_shape_prefix(s@, value@.len() as int, k);
                }
                return Ok((rest, value));
            }
            i = i + 1;
        }
        let rest = s.substring_char(n, n);
        proof {
            broadcast use encode_utf8_valid_utf8;

            assert(s@.take(n as int) =~= s@);
            assert(rest@ =~= s@.skip(n as int));
            assert(s@ + rest@ =~= s@);
            assert(rest@ =~= Seq::<char>::empty());
            assert(encode_utf8(rest@) =~= Seq::<u8>::empty());
            assert(s.spec_bytes().take(s.spec_bytes().len() as int) =~= s.spec_bytes());
            assert(s.spec_bytes().skip(s.spec_bytes().len() as int) =~= Seq::<u8>::empty());
        }
        Ok((rest, s))
    }

    /// Reads a subject value from the start of `s`, with the text it was
    /// read from: a non-empty plain value (see `parse_value`, which says
    /// where the input is cut) if there is one, else a css value between `[`
    /// and the first `]`. On success, returns the rest of the input, the text
    /// of the value and the value.
    pub fn parse_with_span(s: &'a str) -> (r: Result<(&'a str, (&'a str, SubjectValue<'a>)), ParseError<'a>>)
        requires
            value_cut_fits(s),
        ensures
            match subject_shape(s@) {
                Shape::Word(k) => r matches Ok((rest, (span, value))) && span.spec_bytes()
                    == s.spec_bytes().take(cut_offset(s, k)) && rest.spec_bytes()
                    == s.spec_bytes().skip(cut_offset(s, k)) && value == SubjectValue::Value(
                    Value(span),
                ),
                Shape::Bracketed(j) => r matches Ok((rest, (span, value))) && span@ == s@.subrange(
                    1,
                    j as int,
                ) && rest@ == s@.skip(j as int + 1) && value == SubjectValue::Css(Css(span)),
                Shape::Failed(p) => r matches Err(e) && e.input@ == s@.skip(p as int) && e.kind
                    == ErrorKind::Char,
            },
            subject_shape(s@) matches Shape::Word(k) ==> (is_ascii_chars(s@.take(k as int)) ==> (
            r matches Ok((rest, (span, _))) && span@ == s@.take(k as int) && rest@ == s@.skip(
                k as int,
            ))),
            scan(s@) matches Scan::Cut(k) ==> (k > 0 ==> r matches Ok(
                (_, (_, SubjectValue::Value(_))),
            )),
            r matches Ok((rest, (span, SubjectValue::Value(_)))) ==> span@.len() > 0 && span@
                + rest@ == s@ && !(has_letter(span@) && has_separator(span@)),
            r matches Ok((rest, (span, SubjectValue::Css(_)))) ==> seq!['['] + span@ + seq![']']
                + rest@ == s@ && !span@.contains(']'),
    {
        proof {
            broadcast use encode_utf8_valid_utf8;

            lemma_scan_shape(s@, 0, Mode::Neutral);
            lemma_encode_len(s@);
            if let Scan::Cut(k) = scan(s@) {
                assert(is_char_boundary(s.spec_bytes(), cut_offset(s, k)));
                assert(cut_offset(s, k) <= s.spec_bytes().len());
                assert(k > 0 ==> cut_offset(s, k) > 0);
            }
        }
        match Self::parse_value(s) {
            Ok((rest, value)) => {
                if !value.is_empty() {
                    return Ok((rest, (value, SubjectValue::Value(Value(value)))));
                }
            },
            Err(_) => {},
        }
        let n = s.unicode_len();
        if n > 0 && s.get_char(0) == '[' {
            let j = find_char(s, 1, ']');
            proof {
                lemma_first_index(s@, 1, ']');
            }
            if j < n {
                let span = s.substring_char(1, j);
                let rest = s.substring_char(j + 1, n);
                proof {
                    assert(seq!['['] + span@ + seq![']'] + rest@ =~= s@);
                    assert forall|k: int| 0 <= k < span@.len() implies span@[k] != ']' by {
                        assert(span@[k] == s@[k + 1]);
                    }
                }
                Ok((rest, (span, SubjectValue::Css(Css(span)))))
            } else {
                let input = s.substring_char(n, n);
                assert(input@ =~= s@.skip(n as int));
                Err(ParseError { input, kind: ErrorKind::Char })
            }
        } else {
            assert(s@.skip(0) =~= s@);
            Err(ParseError { input: s, kind: ErrorKind::Char })
        }
    }

    /// Reads a subject value from the start of `s`, as `parse_with_span`
    /// does, and returns the rest of the input and the value.
    pub fn parse(s: &'a str) -> (r: Result<(&'a str, SubjectValue<'a>), ParseError<'a>>)
        requires
            value_cut_fits(s),
        ensures
            match subject_shape(s@) {
                Shape::Word(k) => r matches Ok((rest, SubjectValue::Value(Value(t))))
                    && t.spec_bytes() == s.spec_bytes().take(cut_offset(s, k)) && rest.spec_bytes()
                    == s.spec_bytes().skip(cut_offset(s, k)),
                Shape::Bracketed(j) => r matches Ok((rest, value)) && value is Css && value.text()
                    == s@.subrange(1, j as int) && rest@ == s@.skip(j as int + 1),
                Shape::Failed(p) => r matches Err(e) && e.input@ == s@.skip(p as int) && e.kind
                    == ErrorKind::Char,
            },
            subject_shape(s@) matches Shape::Word(k) ==> (is_ascii_chars(s@.take(k as int)) ==> (
            r matches Ok((rest, value)) && value.text() == s@.take(k as int) && rest@ == s@.skip(
                k as int,
            ))),
            scan(s@) matches Scan::Cut(k) ==> (k > 0 ==> r matches Ok((_, SubjectValue::Value(_)))),
    {
        match Self::parse_with_span(s) {
            Ok((rest, (_, value))) => Ok((rest, value)),
            Err(e) => Err(e),
        }
    }
}

} // verus!
