//! Command-line arguments of a guest program and how a host turns each of
//! them into an input for the guest.
use vstd::prelude::*;
use vstd::utf8::encode_utf8;

verus! {

/// One argument handed to a guest program: its name, its value as text, and
/// its kind (`uint32`, `bytearray` or `file`).
#[derive(Debug)]
pub struct Argument {
    pub name: String,
    pub value: String,
    pub kind: String,
}

/// The backend a host runs the guest on.  The backends read arguments
/// slightly differently: the RISC Zero and Jolt hosts drop a leading `0x`
/// from a byte array, and only the RISC Zero and SP1 hosts take a `file`
/// argument.
#[derive(Clone, Copy, Debug, PartialEq, Eq, Structural)]
pub enum Backend {
    Local,
    Sp1,
    Risc0,
    Jolt,
}

/// What a host hands to the guest for one argument.
#[derive(Debug)]
pub enum HostInput {
    /// A 32-bit number.
    Uint32(u32),
    /// Raw bytes.
    Bytes(Vec<u8>),
    /// The contents of the host's input file.
    InputFile,
}

/// A `HostInput` with its bytes as a sequence.
pub enum InputView {
    Uint32(u32),
    Bytes(Seq<u8>),
    InputFile,
}

impl View for HostInput {
    type V = InputView;

    open spec fn view(&self) -> InputView {
        match self {
            HostInput::Uint32(n) => InputView::Uint32(*n),
            HostInput::Bytes(b) => InputView::Bytes(b@),
            HostInput::InputFile => InputView::InputFile,
        }
    }
}

/// Why an argument could not be turned into an input.
#[derive(Clone, Copy, Debug, PartialEq, Eq, Structural)]
pub enum ArgumentError {
    /// A `uint32` whose value is not a decimal number that fits in 32 bits.
    InvalidUint32,
    /// A `bytearray` whose value is not an even-length hex string.
    InvalidHex,
    /// A kind that the backend does not know.
    UnknownKind,
}

/// Whether `c` is an ASCII decimal digit.
pub open spec fn is_decimal_digit(c: char) -> bool {
    '0' <= c && c <= '9'
}

/// The number that a string of decimal digits spells.
pub open spec fn digits_value(s: Seq<char>) -> nat
    decreases s.len(),
{
    if s.len() == 0 {
        0
    } else {
        digits_value(s.drop_last()) * 10 + ((s.last() as int) - ('0' as int)) as nat
    }
}

/// The digits of a decimal text, a single leading `+` taken off.
pub open spec fn unsigned_digits(s: Seq<char>) -> Seq<char> {
    if s.len() > 0 && s[0] == '+' {
        s.drop_first()
    } else {
        s
    }
}

/// The 32-bit number a text spells in base 10: an optional `+`, then one or
/// more ASCII digits, the value at most `u32::MAX`.  Anything else
/// (a sign alone, whitespace, a `-`, an overflow) spells no number.
pub open spec fn decimal_u32(s: Seq<char>) -> Option<u32> {
    let d = unsigned_digits(s);
    if d.len() > 0 && (forall|i: int| 0 <= i < d.len() ==> is_decimal_digit(#[trigger] d[i]))
        && digits_value(d) <= u32::MAX {
        Some(digits_value(d) as u32)
    } else {
        None
    }
}

/// The value of one hex digit (`0`-`9`, `a`-`f`, `A`-`F`).
pub open spec fn hex_digit(b: u8) -> Option<u8> {
    if 48 <= b && b <= 57 {
        Some((b - 48) as u8)
    } else if 97 <= b && b <= 102 {
        Some((b - 87) as u8)
    } else if 65 <= b && b <= 70 {
        Some((b - 55) as u8)
    } else {
        None
    }
}

/// The bytes a hex text stands for, two digits to a byte, the high digit
/// first; `None` for an odd length or a character that is no hex digit.
pub open spec fn hex_decoding(s: Seq<u8>) -> Option<Seq<u8>>
    decreases s.len(),
{
    if s.len() == 0 {
        Some(Seq::empty())
    } else if s.len() == 1 {
        None
    } else {
        match (hex_digit(s[0]), hex_digit(s[1]), hex_decoding(s.skip(2))) {
            (Some(h), Some(l), Some(rest)) => Some(seq![(h * 16 + l) as u8] + rest),
            _ => None,
        }
    }
}

/// Whether the backend drops a leading `0x` from a byte array.
pub open spec fn strips_hex_prefix(backend: Backend) -> bool {
    backend == Backend::Risc0 || backend == Backend::Jolt
}

/// Whether the backend takes a `file` argument.
pub open spec fn takes_input_file(backend: Backend) -> bool {
    backend == Backend::Risc0 || backend == Backend::Sp1
}

/// The hex text of a byte-array value, as the backend reads it.
pub open spec fn hex_text(value: Seq<u8>, backend: Backend) -> Seq<u8> {
    if strips_hex_prefix(backend) && value.len() >= 2 && value[0] == 48 && value[1] == 120 {
        value.skip(2)
    } else {
        value
    }
}

/// The input that the backend makes of an argument, or why it makes none.
pub open spec fn argument_input(arg: Argument, backend: Backend) -> Result<InputView, ArgumentError> {
    if arg.kind@ == "uint32"@ {
        match decimal_u32(arg.value@) {
            Some(n) => Ok(InputView::Uint32(n)),
            None => Err(ArgumentError::InvalidUint32),
        }
    } else if arg.kind@ == "bytearray"@ {
        match hex_decoding(hex_text(encode_utf8(arg.value@), backend)) {
            Some(b) => Ok(InputView::Bytes(b)),
            None => Err(ArgumentError::InvalidHex),
        }
    } else if arg.kind@ == "file"@ && takes_input_file(backend) {
        Ok(InputView::InputFile)
    } else {
        Err(ArgumentError::UnknownKind)
    }
}

/// The UTF-8 bytes of a text whose first character is ASCII begin with that
/// character's code, and no other first character's bytes begin with an
/// ASCII code.
proof fn lemma_utf8_first_byte(chars: Seq<char>)
    requires
        chars.len() > 0,
    ensures
        encode_utf8(chars).len() > 0,
        (chars[0] as u32) < 128 ==> encode_utf8(chars)[0] as u32 == chars[0] as u32,
        (chars[0] as u32) >= 128 ==> encode_utf8(chars)[0] >= 0xC0,
        (chars[0] as u32) < 128 ==> encode_utf8(chars) == seq![encode_utf8(chars)[0]]
            + encode_utf8(chars.drop_first()),
{
    let c = chars[0] as u32;
    vstd::utf8::char_is_scalar(chars[0]);
    let e = vstd::utf8::encode_scalar(c);
    assert(encode_utf8(chars) == e + encode_utf8(chars.drop_first()));
    if c <= 0x7F {
        assert((c & 0x7F) as u8 == c) by (bit_vector)
            requires
                c <= 0x7F,
        ;
        assert(e.len() == 1);
        assert(e[0] as u32 == c);
    } else if 0x80 <= c && c <= 0x7FF {
        assert((0xC0u8 | ((c >> 6) & 0x1F) as u8) >= 0xC0) by (bit_vector);
    } else if 0x800 <= c && c <= 0xFFFF {
        assert((0xE0u8 | ((c >> 12) & 0x0F) as u8) >= 0xC0) by (bit_vector);
    } else {
        assert((0xF0u8 | ((c >> 18) & 0x7) as u8) >= 0xC0) by (bit_vector);
    }
}

/// A byte array is hex-decoded whole, except on a backend that drops a
/// leading `0x` when its value starts with the two characters `0` and `x`:
/// then the value after those two characters is decoded.  Decoding fails
/// exactly when that text is no hex string.
pub proof fn lemma_bytearray_decoded(arg: Argument, backend: Backend)
    requires
        arg.kind@ == "bytearray"@,
    ensures
        ({
            let chars = arg.value@;
            let prefixed = chars.len() >= 2 && chars[0] == '0' && chars[1] == 'x';
            let text = if prefixed && (backend == Backend::Risc0 || backend == Backend::Jolt) {
                encode_utf8(chars.skip(2))
            } else {
                encode_utf8(chars)
            };
            argument_input(arg, backend) == match hex_decoding(text) {
                Some(b) => Ok::<InputView, ArgumentError>(InputView::Bytes(b)),
                None => Err(ArgumentError::InvalidHex),
            }
        }),
{
    reveal_strlit("bytearray");
    reveal_strlit("uint32");
    assert(arg.kind@ != "uint32"@) by {
        assert(arg.kind@[0] != "uint32"@[0]);
    }
    let chars = arg.value@;
    let v = encode_utf8(chars);
    let prefixed = chars.len() >= 2 && chars[0] == '0' && chars[1] == 'x';
    let byte_prefixed = v.len() >= 2 && v[0] == 48 && v[1] == 120;
    vstd::utf8::char_u32_cast('0', 48);
    vstd::utf8::char_u32_cast('x', 120);
    if chars.len() > 0 {
        vstd::utf8::char_u32_cast(chars[0], chars[0] as u32);
        lemma_utf8_first_byte(chars);
        assert(v[0] == 48 <==> (chars[0] as u32) == 48);
        if (chars[0] as u32) == 48 {
            let rest = chars.drop_first();
            assert(v == seq![48u8] + encode_utf8(rest));
            if rest.len() > 0 {
                vstd::utf8::char_u32_cast(rest[0], rest[0] as u32);
                assert(rest[0] == chars[1]);
                lemma_utf8_first_byte(rest);
                assert(v[1] == encode_utf8(rest)[0]);
                assert(v[1] == 120 <==> (rest[0] as u32) == 120);
                if (rest[0] as u32) == 120 {
                    assert(encode_utf8(rest) == seq![120u8] + encode_utf8(rest.drop_first()));
                    assert(rest.drop_first() =~= chars.skip(2));
                    assert(v.skip(2) =~= encode_utf8(chars.skip(2)));
                }
            } else {
                assert(encode_utf8(rest) == Seq::<u8>::empty());
            }
        }
    } else {
        assert(v == Seq::<u8>::empty());
    }
    assert(byte_prefixed == prefixed);
}

/// A result of `process_argument`, its input taken by its view.
pub open spec fn outcome_view(r: Result<HostInput, ArgumentError>) -> Result<InputView, ArgumentError> {
    match r {
        Ok(i) => Ok(i@),
        Err(e) => Err(e),
    }
}

/// Parses decimal text with `u32::from_str_radix` in base 10.  Its
/// documentation promises: an optional `+`, then digits only; anything
/// else, an empty text or an overflow is an error.
#[verifier::external_body]
fn parse_decimal_u32(text: &str) -> (r: Option<u32>)
    ensures
        r == decimal_u32(text@),
{
    match u32::from_str_radix(text, 10) {
        Ok(n) => Some(n),
        Err(_) => None,
    }
}

/// Decodes hex text with `hex::decode`.  Its source checks for an even
/// length, maps each character through `0-9`, `a-f`, `A-F`, and combines
/// each pair as high digit times sixteen plus low digit; any other
/// character is an error.
#[verifier::external_body]
fn decode_hex(text: &[u8]) -> (r: Result<Vec<u8>, hex::FromHexError>)
    ensures
        match r {
            Ok(b) => hex_decoding(text@) == Some(b@),
            Err(_) => hex_decoding(text@) is None,
        },
{
    hex::decode(text)
}

/// `hex::FromHexError`, the error `hex::decode` returns.
#[verifier::external_type_specification]
#[verifier::external_body]
pub struct ExFromHexError(hex::FromHexError);

/// Whether `text` holds exactly the characters of `expected`.
fn text_is(text: &String, expected: &str) -> (b: bool)
    ensures
        b == (text@ == expected@),
{
    let expected_string = String::from_str(expected);
    *text == expected_string
}

/// Turns one argument into the input the backend hands to the guest: a
/// `uint32` is parsed as a decimal number, a `bytearray` is decoded from
/// hex (after dropping a leading `0x` where the backend does), and a `file`
/// stands for the host's input file where the backend takes one.
pub fn process_argument(arg: &Argument, backend: Backend) -> (r: Result<HostInput, ArgumentError>)
    ensures
        outcome_view(r) == argument_input(*arg, backend),
{
    if text_is(&arg.kind, "uint32") {
        match parse_decimal_u32(arg.value.as_str()) {
            Some(n) => Ok(HostInput::Uint32(n)),
            None => Err(ArgumentError::InvalidUint32),
        }
    } else if text_is(&arg.kind, "bytearray") {
        let bytes = arg.value.as_str().as_bytes();
        let strip = match backend {
            Backend::Risc0 | Backend::Jolt => true,
            Backend::Local | Backend::Sp1 => false,
        };
        let text = if strip && bytes.len() >= 2 && bytes[0] == 48 && bytes[1] == 120 {
            &bytes[2..bytes.len()]
        } else {
            bytes
        };
        assert(text@ == hex_text(encode_utf8(arg.value@), backend)) by {
            if strip && bytes@.len() >= 2 && bytes@[0] == 48 && bytes@[1] == 120 {
                assert(text@ =~= bytes@.skip(2));
            }
        }
        match decode_hex(text) {
            Ok(b) => Ok(HostInput::Bytes(b)),
            Err(_) => Err(ArgumentError::InvalidHex),
        }
    } else if text_is(&arg.kind, "file") && match backend {
        Backend::Risc0 | Backend::Sp1 => true,
        Backend::Local | Backend::Jolt => false,
    } {
        Ok(HostInput::InputFile)
    } else {
        Err(ArgumentError::UnknownKind)
    }
}

} // verus!
