//! How identifiers, Streams and errors are named: every character of it.
use vstd::prelude::*;

use crate::error::ProtocolError;
use crate::service::Negative;
use crate::text::{all_digits, digit_value, digits_value, hex16, hex8, hex_value, without_plus};
use crate::transport::{bus_of, identifier_of, origin_of};

verus! {

/// The code point of the hex digit of `n`: a digit up to nine, and a lower
/// case letter from `a` on.
pub open spec fn digit_code(n: int) -> int {
    if n < 10 {
        48 + n
    } else {
        87 + n
    }
}

/// What the character `c` stands for as a hex digit: `0` to `9`, and the
/// letters of either case from ten on.
pub open spec fn digit_of(c: char) -> Option<int> {
    let code = c as int;
    if 48 <= code <= 57 {
        Some(code - 48)
    } else if 97 <= code <= 102 {
        Some(code - 87)
    } else if 65 <= code <= 70 {
        Some(code - 55)
    } else {
        None
    }
}

/// A byte in hex is `0x` and two digits, the higher first.
pub proof fn a_byte_in_hex(n: u8)
    ensures
        hex8(n).len() == 4,
        hex8(n)[0] == '0',
        hex8(n)[1] == 'x',
        hex8(n)[2] as int == digit_code(n as int / 16),
        hex8(n)[3] as int == digit_code(n as int % 16),
{
}

/// An identifier in hex is `0x` and four digits, the highest first.
pub proof fn an_identifier_in_hex(n: u16)
    ensures
        hex16(n).len() == 6,
        hex16(n)[0] == '0',
        hex16(n)[1] == 'x',
        hex16(n)[2] as int == digit_code(n as int / 4096),
        hex16(n)[3] as int == digit_code(n as int / 256 % 16),
        hex16(n)[4] as int == digit_code(n as int / 16 % 16),
        hex16(n)[5] as int == digit_code(n as int % 16),
{
}

/// The bus of a message is what its URI says between `isotp://` and the
/// next slash, or to the end where there is none.
pub proof fn the_bus_of_a_message(bus: Seq<char>, rest: Seq<char>)
    requires
        !bus.contains('/'),
    ensures
        bus_of("isotp://"@ + bus) == bus,
        bus_of("isotp://"@ + bus + "/"@ + rest) == bus,
{
    reveal_strlit("isotp://");
    reveal_strlit("/");
    let bare = "isotp://"@ + bus;
    let longer = bare + "/"@ + rest;
    assert("isotp://"@ =~= bare.subrange(0, 8));
    assert(bare.skip(8) =~= bus);
    bus.index_of_first_ensures('/');
    let after = longer.skip(8);
    assert("isotp://"@ =~= longer.subrange(0, 8));
    assert(after =~= bus + "/"@ + rest);
    assert(after[bus.len() as int] == '/');
    after.index_of_first_ensures('/');
    assert forall|i: int| 0 <= i < bus.len() implies after[i] != '/' by {
        assert(after[i] == bus[i]);
    }
    assert(after.take(bus.len() as int) =~= bus);
}

/// A message whose URI does not start with `isotp://` comes from the bus
/// `isotp`.
pub proof fn a_message_of_no_bus(uri: Seq<char>)
    requires
        uri.len() < 8 || uri.take(8) != "isotp://"@,
    ensures
        bus_of(uri) == "isotp"@,
{
    reveal_strlit("isotp://");
    if uri.len() >= 8 {
        assert(uri.take(8) =~= uri.subrange(0, 8));
    }
}

/// The origin of a Stream is `uds://`, the bus, a slash, and the identifier
/// it was written to, as `0x` and four hex digits.
pub proof fn the_origin_of_a_stream(bus: Seq<char>, did: u16)
    ensures
        ({
            let origin = origin_of(bus, did);
            let at = 6 + bus.len() as int;
            &&& origin.len() == at + 7
            &&& origin.take(6) == "uds://"@
            &&& origin.subrange(6, at) == bus
            &&& origin[at] == '/'
            &&& origin[at + 1] == '0'
            &&& origin[at + 2] == 'x'
            &&& origin[at + 3] as int == digit_code(did as int / 4096)
            &&& origin[at + 4] as int == digit_code(did as int / 256 % 16)
            &&& origin[at + 5] as int == digit_code(did as int / 16 % 16)
            &&& origin[at + 6] as int == digit_code(did as int % 16)
        }),
{
    reveal_strlit("uds://");
    reveal_strlit("/");
    let origin = origin_of(bus, did);
    an_identifier_in_hex(did);
    assert(origin.take(6) =~= "uds://"@);
    assert(origin.subrange(6, 6 + bus.len() as int) =~= bus);
}

/// A target without a path names the identifier of the end it is handed to;
/// one with a path names the same at every end, and none where the path
/// does not start with `0x`.
pub proof fn what_a_path_names(own: u16, other: u16, path: Seq<char>)
    ensures
        path.len() == 0 ==> identifier_of(own, path) == Some(own),
        path.len() > 0 ==> identifier_of(own, path) == identifier_of(other, path),
        path.len() == 1 ==> identifier_of(own, path) is None,
        path.len() > 1 && (path[0] != '0' || path[1] != 'x') ==> identifier_of(own, path) is None,
        path.len() == 2 ==> identifier_of(own, path) is None,
        path.len() == 3 && path[2] == '+' ==> identifier_of(own, path) is None,
{
    reveal_strlit("0x");
    if "0x"@.is_prefix_of(path) {
        assert(path.subrange(0, 2)[0] == '0' && path.subrange(0, 2)[1] == 'x');
        assert(path.skip(2).len() == path.len() - 2);
    }
}

/// `0x` and one hex digit, of either case and with or without a plus sign
/// between, name what the digit stands for.
pub proof fn one_digit_names_itself(own: u16, c: char)
    ensures
        identifier_of(own, seq!['0', 'x', c]) == match digit_of(c) {
            Some(n) => Some(n as u16),
            None => None,
        },
        identifier_of(own, seq!['0', 'x', '+', c]) == match digit_of(c) {
            Some(n) => Some(n as u16),
            None => None,
        },
{
    reveal_strlit("0x");
    let bare = seq!['0', 'x', c];
    let signed = seq!['0', 'x', '+', c];
    let digits = seq![c];
    assert("0x"@ =~= bare.subrange(0, 2));
    assert("0x"@ =~= signed.subrange(0, 2));
    assert(bare.skip(2) =~= digits);
    assert(signed.skip(2).skip(1) =~= digits);
    assert(digits.drop_last() =~= seq![]);
    reveal_with_fuel(digits_value, 2);
    if c == '+' {
        assert(bare.skip(2).skip(1) =~= seq![]);
    }
    assert(digits[0] == c);
    assert(all_digits(digits) <==> digit_value(c) is Some);
}

/// A digit more after digits makes sixteen times as much and what the digit
/// stands for, so long as sixteen bits hold it; anything else after them
/// names nothing, and so does anything after what names nothing.
pub proof fn a_digit_more_is_worth_sixteen_times(own: u16, path: Seq<char>, c: char)
    requires
        path.len() > 2,
        path[0] == '0',
        path[1] == 'x',
        path.len() > 3 || path[2] != '+',
    ensures
        identifier_of(own, path.push(c)) == match (identifier_of(own, path), digit_of(c)) {
            (Some(did), Some(n)) => if did * 16 + n <= 0xffff {
                Some((did * 16 + n) as u16)
            } else {
                None
            },
            _ => None,
        },
{
    reveal_strlit("0x");
    let longer = path.push(c);
    assert("0x"@ =~= path.subrange(0, 2));
    assert("0x"@ =~= longer.subrange(0, 2));
    let digits = without_plus(path.skip(2));
    let more = without_plus(longer.skip(2));
    assert(longer.skip(2) =~= path.skip(2).push(c));
    assert(more =~= digits.push(c));
    assert(more.drop_last() =~= digits);
    assert(more.last() == c);
    if all_digits(more) {
        assert forall|i: int| 0 <= i < digits.len() implies digit_value(
            #[trigger] digits[i],
        ) is Some by {
            assert(more[i] == digits[i]);
        }
        assert(digit_value(more[digits.len() as int]) is Some);
    } else if all_digits(digits) && digit_value(c) is Some {
        assert forall|i: int| 0 <= i < more.len() implies digit_value(#[trigger] more[i]) is Some by {
            if i < digits.len() {
                assert(more[i] == digits[i]);
            }
        }
    }
    assert(hex_value(path.skip(2)) is Some ==> identifier_of(own, path) == Some(
        digits_value(digits) as u16,
    ));
}

/// A refusal in words names the service and the code, each as `0x` and two
/// hex digits.
pub proof fn a_refusal_in_words(service: u8, code: u8)
    ensures
        ({
            let words = ProtocolError::Refused(Negative { service, code }).words();
            &&& words.len() == 35
            &&& words.take(10) == "service 0x"@
            &&& words[10] as int == digit_code(service as int / 16)
            &&& words[11] as int == digit_code(service as int % 16)
            &&& words.subrange(12, 33) == " refused with code 0x"@
            &&& words[33] as int == digit_code(code as int / 16)
            &&& words[34] as int == digit_code(code as int % 16)
        }),
{
    reveal_strlit("service ");
    reveal_strlit("service 0x");
    reveal_strlit(" refused with code ");
    reveal_strlit(" refused with code 0x");
    let words = ProtocolError::Refused(Negative { service, code }).words();
    a_byte_in_hex(service);
    a_byte_in_hex(code);
    assert(words.take(10) =~= "service 0x"@);
    assert(words.subrange(12, 33) =~= " refused with code 0x"@);
}

/// An answer to another service in words names the one that was answered
/// and then the one that was asked, each as `0x` and two hex digits.
pub proof fn another_service_in_words(answered: u8, asked: u8)
    ensures
        ({
            let words = (ProtocolError::AnotherService { answered, asked }).words();
            &&& words.len() == 35
            &&& words.take(23) == "an answer to service 0x"@
            &&& words[23] as int == digit_code(answered as int / 16)
            &&& words[24] as int == digit_code(answered as int % 16)
            &&& words.subrange(25, 33) == ", not 0x"@
            &&& words[33] as int == digit_code(asked as int / 16)
            &&& words[34] as int == digit_code(asked as int % 16)
        }),
{
    reveal_strlit("an answer to service ");
    reveal_strlit("an answer to service 0x");
    reveal_strlit(", not ");
    reveal_strlit(", not 0x");
    let words = (ProtocolError::AnotherService { answered, asked }).words();
    a_byte_in_hex(answered);
    a_byte_in_hex(asked);
    assert(words.take(23) =~= "an answer to service 0x"@);
    assert(words.subrange(25, 33) =~= ", not 0x"@);
}

/// Every other error says in words what was wrong, and one about a path
/// starts with the path.
pub proof fn the_other_errors_in_words(error: ProtocolError)
    ensures
        match error {
            ProtocolError::EmptyResponse => error.words() == "an empty response"@,
            ProtocolError::NegativeWithoutCode => {
                error.words() == "a negative response without its code"@
            },
            ProtocolError::NotAResponse => error.words() == "a response that is not one"@,
            ProtocolError::NoBlockLength => {
                error.words() == "a download answer without a block length"@
            },
            ProtocolError::DownloadTooLong => {
                error.words() == "a download longer than four bytes can size"@
            },
            ProtocolError::BlockHoldsNoData => {
                error.words() == "a block length that holds no data"@
            },
            ProtocolError::HungUp => error.words() == "the tester hung up"@,
            ProtocolError::NotAnIdentifier(path) => {
                error.words() == path@ + " is not a data identifier"@
            },
            ProtocolError::AnotherService { .. } => true,
            ProtocolError::Refused(_) => true,
        },
{
}

} // verus!
