use vstd::prelude::*;
use vstd::string::StringSliceAdditionalSpecFns;

verus! {

/// A JSON number as the feed's parser reads it: `integer.fraction`, where
/// `fraction` holds the `fraction_length` digits after the point, an exponent
/// and a sign.
#[derive(Clone, Copy, Debug, PartialEq, Eq)]
pub struct JsonNumber {
    pub integer: u64,
    pub fraction: u64,
    pub fraction_length: u32,
    pub exponent: i32,
    pub negative: bool,
}

/// The value of an object member, as far as the price logic reads it: a
/// number, or anything else.
#[derive(Clone, Copy, Debug, PartialEq, Eq)]
pub enum JsonField {
    Number(JsonNumber),
    Other,
}

/// A member `key: value` of a JSON object.
#[derive(Clone, Debug)]
pub struct JsonMember {
    pub key: Vec<char>,
    pub value: JsonField,
}

/// A parsed JSON document: an object with its members in order, or a value
/// of any other kind.
#[derive(Clone, Debug)]
pub enum JsonDocument {
    Object(Vec<JsonMember>),
    Other,
}

/// The mathematical model of a [`JsonDocument`].
pub enum JsonDocumentView {
    Object(Seq<(Seq<char>, JsonField)>),
    Other,
}

impl View for JsonMember {
    type V = (Seq<char>, JsonField);

    open spec fn view(&self) -> (Seq<char>, JsonField) {
        (self.key@, self.value)
    }
}

impl View for JsonDocument {
    type V = JsonDocumentView;

    open spec fn view(&self) -> JsonDocumentView {
        match self {
            JsonDocument::Object(members) => JsonDocumentView::Object(
                members@.map_values(|m: JsonMember| m@),
            ),
            JsonDocument::Other => JsonDocumentView::Other,
        }
    }
}

/// The model of an optional document.
pub open spec fn document_view(doc: Option<JsonDocument>) -> Option<JsonDocumentView> {
    match doc {
        Some(d) => Some(d@),
        None => None,
    }
}

/// What `lite_json::parse_json` makes of a text: `None` where it reports a
/// syntax error, else the document it reads.
pub uninterp spec fn json_document(input: Seq<char>) -> Option<JsonDocumentView>;

/// `b` is an ASCII decimal digit.
pub open spec fn is_ascii_digit(b: u8) -> bool {
    0x30 <= b <= 0x39
}

/// Where a left-to-right reading of JSON text stands: outside strings,
/// inside a string, or inside a string right after a backslash.
pub enum TextState {
    Outside,
    InString,
    Escaped,
}

/// The reading state after byte `b`, from state `state`.
pub open spec fn next_text_state(state: TextState, b: u8) -> TextState {
    match state {
        TextState::Outside => if b == 0x22 {
            TextState::InString
        } else {
            TextState::Outside
        },
        TextState::InString => if b == 0x22 {
            TextState::Outside
        } else if b == 0x5c {
            TextState::Escaped
        } else {
            TextState::InString
        },
        TextState::Escaped => TextState::InString,
    }
}

/// The reading state before position `i` of `bytes`.
pub open spec fn text_state(bytes: Seq<u8>, i: int) -> TextState
    decreases i,
{
    if i <= 0 || i > bytes.len() {
        TextState::Outside
    } else {
        next_text_state(text_state(bytes, i - 1), bytes[i - 1])
    }
}

/// Byte `i` is a digit read outside strings.
pub open spec fn is_number_digit(bytes: Seq<u8>, i: int) -> bool {
    0 <= i < bytes.len() && is_ascii_digit(bytes[i]) && text_state(bytes, i) is Outside
}

/// The number of digits read outside strings that stand right before
/// position `i`.
pub open spec fn number_run_before(bytes: Seq<u8>, i: int) -> nat
    decreases i,
{
    if i <= 0 || !is_number_digit(bytes, i - 1) {
        0
    } else {
        1 + number_run_before(bytes, i - 1)
    }
}

/// The value of the digits counted by [`number_run_before`].
pub open spec fn number_run_value(bytes: Seq<u8>, i: int) -> nat
    decreases i,
{
    if i <= 0 || !is_number_digit(bytes, i - 1) {
        0
    } else {
        10 * number_run_value(bytes, i - 1) + (bytes[i - 1] - 0x30) as nat
    }
}

/// `b` is `e` or `E`, which opens the exponent of a JSON number.
pub open spec fn is_exponent_marker(b: u8) -> bool {
    b == 0x45 || b == 0x65
}

/// `b` is `+` or `-`.
pub open spec fn is_sign(b: u8) -> bool {
    b == 0x2b || b == 0x2d
}

/// The digits that begin at `start` follow an exponent marker, with or
/// without a sign between them.
pub open spec fn starts_exponent(bytes: Seq<u8>, start: int) -> bool {
    ||| start >= 1 && is_exponent_marker(bytes[start - 1])
    ||| start >= 2 && is_sign(bytes[start - 1]) && is_exponent_marker(bytes[start - 2])
}

/// The largest value the parser accumulates for a run of digits that
/// begins at `start`: `i32::MAX` for an exponent, `u64::MAX` for the
/// integer or the fraction of a number.
pub open spec fn accumulator_max(bytes: Seq<u8>, start: int) -> nat {
    if starts_exponent(bytes, start) {
        0x7fff_ffff
    } else {
        0xffff_ffff_ffff_ffff
    }
}

/// The digits read outside strings that end right before position `i` have
/// a value that the accumulator reading them holds.
pub open spec fn number_run_fits(bytes: Seq<u8>, i: int) -> bool {
    let run = number_run_before(bytes, i);
    run > 0 ==> number_run_value(bytes, i) <= accumulator_max(bytes, i - run)
}

/// The UTF-8 bytes of a text on which the JSON parser returns without an
/// integer overflow: shorter than `u32::MAX` bytes (the parser's character
/// position is a `u32`), and every run of digits outside strings has a value
/// that its accumulator holds. The parser accumulates digits only in number
/// tokens, which stand outside strings: the integer and the fraction of a
/// number in a `u64`, its exponent in an `i32`. Digits inside strings are
/// not limited.
pub open spec fn json_input_within_limits(bytes: Seq<u8>) -> bool {
    &&& bytes.len() < 0xffff_ffff
    &&& forall|i: int| 0 <= i <= bytes.len() ==> #[trigger] number_run_fits(bytes, i)
}

/// Decides [`json_input_within_limits`] for the UTF-8 bytes of `input`.
pub fn json_input_is_within_limits(input: &str) -> (r: bool)
    ensures
        r == json_input_within_limits(input.spec_bytes()),
{
    let bytes = input.as_bytes();
    let n = bytes.len();
    if n >= 0xffff_ffff {
        return false;
    }
    // 0: outside strings, 1: in a string, 2: right after a backslash in one.
    let mut state: u8 = 0;
    let mut run: usize = 0;
    let mut value: u64 = 0;
    let mut exponent = false;
    let mut i: usize = 0;
    assert(number_run_fits(bytes@, 0));
    while i < n
        invariant
            n == bytes@.len(),
            bytes@ == input.spec_bytes(),
            i <= n,
            state <= 2,
            (state == 0) == (text_state(bytes@, i as int) is Outside),
            (state == 1) == (text_state(bytes@, i as int) is InString),
            run <= i,
            run == number_run_before(bytes@, i as int),
            value == number_run_value(bytes@, i as int),
            run > 0 ==> exponent == starts_exponent(bytes@, i - run),
            forall|j: int| 0 <= j <= i ==> #[trigger] number_run_fits(bytes@, j),
        decreases n - i,
    {
        let b = bytes[i];
        let ghost before = text_state(bytes@, i as int);
        if state == 0 && 0x30 <= b && b <= 0x39 {
            if run == 0 {
                exponent = (i >= 1 && (bytes[i - 1] == 0x45 || bytes[i - 1] == 0x65)) || (i >= 2
                    && (bytes[i - 1] == 0x2b || bytes[i - 1] == 0x2d) && (bytes[i - 2] == 0x45
                    || bytes[i - 2] == 0x65));
                value = 0;
            }
            let next: u128 = value as u128 * 10 + (b - 0x30) as u128;
            let max: u128 = if exponent {
                0x7fff_ffff
            } else {
                0xffff_ffff_ffff_ffff
            };
            run = run + 1;
            assert(number_run_before(bytes@, i + 1) == run);
            assert(number_run_value(bytes@, i + 1) == next);
            if next > max {
                assert(!number_run_fits(bytes@, i + 1));
                return false;
            }
            value = next as u64;
        } else {
            run = 0;
            value = 0;
        }
        if state == 0 {
            if b == 0x22 {
                state = 1;
            }
        } else if state == 1 {
            if b == 0x22 {
                state = 0;
            } else if b == 0x5c {
                state = 2;
            }
        } else {
            state = 1;
        }
        i = i + 1;
        assert(text_state(bytes@, i as int) == next_text_state(before, b));
        assert(run == number_run_before(bytes@, i as int));
        assert(number_run_fits(bytes@, i as int));
    }
    true
}

/// Parses `input` with `lite_json::parse_json` and keeps of the result what
/// the price logic reads.
#[verifier::external_body]
pub(crate) fn parse_json_document(input: &str) -> (r: Option<JsonDocument>)
    requires
        json_input_within_limits(input.spec_bytes()),
    ensures
        document_view(r) == json_document(input@),
{
    match lite_json::parse_json(input) {
        Ok(lite_json::JsonValue::Object(members)) => Some(JsonDocument::Object(
            members.into_iter().map(|(key, value)| JsonMember { key, value: match value {
                lite_json::JsonValue::Number(n) => JsonField::Number(JsonNumber {
                    integer: n.integer, fraction: n.fraction, fraction_length: n.fraction_length,
                    exponent: n.exponent, negative: n.negative }),
                _ => JsonField::Other,
            } }).collect())),
        Ok(_) => Some(JsonDocument::Other),
        Err(_) => None,
    }
}

} // verus!
