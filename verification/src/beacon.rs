//! Beacons: the strings that admit a node to a Constellation.
//!
//! A Beacon is written `orbit-v1-` followed by its payload, the binary form of a document
//! ticket, in base64url.

use vstd::prelude::*;
use vstd::slice::slice_to_vec;
use vstd::utf8;

use crate::encoding;
use crate::text;

verus! {

/// What every Beacon begins with.
pub const BEACON_PREFIX: &'static str = "orbit-v1-";

/// A ticket to a Constellation.
#[derive(Debug, PartialEq, Eq)]
pub struct Beacon {
    payload: Vec<u8>,
}

/// Why a text is not a Beacon.
#[derive(Debug, Clone, Copy, PartialEq, Eq, Structural)]
pub enum BeaconError {
    /// The text does not begin with the prefix.
    MissingPrefix,
    /// What follows the prefix is longer than can be decoded.
    TooLong,
    /// What follows the prefix is not base64url.
    InvalidEncoding,
    /// What follows the prefix is not a document ticket.
    InvalidTicket,
}

impl View for Beacon {
    type V = Seq<u8>;

    closed spec fn view(&self) -> Seq<u8> {
        self.payload@
    }
}

/// How the Beacon with the given payload is written.
pub open spec fn beacon_text(payload: Seq<u8>) -> Seq<char> {
    BEACON_PREFIX@ + encoding::ascii_text(encoding::base64url(payload))
}

/// What follows the prefix in a Beacon, in bytes.
pub open spec fn encoded_part(text: Seq<char>) -> Seq<u8> {
    utf8::encode_utf8(text.skip(BEACON_PREFIX@.len() as int))
}

/// What decoding `text` gives: the payload that it writes in the form of a Beacon, or the reason
/// why it writes none.
pub open spec fn decodes_to(text: Seq<char>, res: Result<Vec<u8>, BeaconError>) -> bool {
    if !text::begins_with(text, BEACON_PREFIX@) {
        res matches Err(e) && e == BeaconError::MissingPrefix
    } else if encoded_part(text).len() > encoding::MAX_ENCODED {
        res matches Err(e) && e == BeaconError::TooLong
    } else {
        match res {
            Ok(payload) => beacon_text(payload@) == text,
            Err(e) => e == BeaconError::InvalidEncoding && !has_form(text),
        }
    }
}

/// Whether `text` writes some payload in the form of a Beacon.
pub open spec fn has_form(text: Seq<char>) -> bool {
    exists|payload: Seq<u8>| #[trigger] beacon_text(payload) == text
}

/// What reading `text` as a Beacon gives: the Beacon that it writes, or the reason why it
/// writes none. `holds_ticket` says whether the payload is the binary form of a document ticket;
/// without one there is no Beacon.
pub open spec fn reads_as(
    text: Seq<char>,
    holds_ticket: bool,
    res: Result<Beacon, BeaconError>,
) -> bool {
    if !text::begins_with(text, BEACON_PREFIX@) {
        res matches Err(e) && e == BeaconError::MissingPrefix
    } else if encoded_part(text).len() > encoding::MAX_ENCODED {
        res matches Err(e) && e == BeaconError::TooLong
    } else if !has_form(text) {
        res matches Err(e) && e == BeaconError::InvalidEncoding
    } else if !holds_ticket {
        res matches Err(e) && e == BeaconError::InvalidTicket
    } else {
        res matches Ok(beacon) && beacon_text(beacon@) == text
    }
}

/// The message that describes an error.
pub open spec fn error_text(error: BeaconError) -> Seq<char> {
    match error {
        BeaconError::MissingPrefix => "beacon must start with 'orbit-v1-'"@,
        BeaconError::TooLong => "beacon is too long"@,
        BeaconError::InvalidEncoding => "beacon is not valid base64url"@,
        BeaconError::InvalidTicket => "beacon holds no document ticket"@,
    }
}

impl BeaconError {
    /// The message that describes this error.
    pub fn to_string(&self) -> (message: String)
        ensures
            message@ == error_text(*self),
    {
        match self {
            BeaconError::MissingPrefix => "beacon must start with 'orbit-v1-'".to_owned(),
            BeaconError::TooLong => "beacon is too long".to_owned(),
            BeaconError::InvalidEncoding => "beacon is not valid base64url".to_owned(),
            BeaconError::InvalidTicket => "beacon holds no document ticket".to_owned(),
        }
    }
}

impl Clone for Beacon {
    fn clone(&self) -> (beacon: Beacon)
        ensures
            beacon@ == self@,
    {
        proof {
            use_type_invariant(self);
        }
        Beacon { payload: slice_to_vec(self.payload.as_slice()) }
    }
}

impl Beacon {
    #[verifier::type_invariant]
    spec fn can_be_written(&self) -> bool {
        self.payload@.len() <= encoding::MAX_ENCODED
    }

    /// The Beacon with the given payload.
    pub fn new(payload: Vec<u8>) -> (beacon: Beacon)
        requires
            payload@.len() <= encoding::MAX_ENCODED,
        ensures
            beacon@ == payload@,
    {
        Beacon { payload }
    }

    /// The binary form of the document ticket.
    pub fn payload(&self) -> (payload: &[u8])
        ensures
            payload@ == self@,
    {
        self.payload.as_slice()
    }

    /// How this Beacon is written.
    pub fn to_string(&self) -> (text: String)
        ensures
            text@ == beacon_text(self@),
    {
        proof {
            use_type_invariant(self);
        }
        BEACON_PREFIX.to_owned().concat(
            encoding::base64url_encode(self.payload.as_slice()).as_str(),
        )
    }

    /// Reads a Beacon, given whether the payload that [`Beacon::decode`] finds in the text, if
    /// any, is the binary form of a document ticket.
    pub fn parse(s: &str, holds_ticket: bool) -> (res: Result<Beacon, BeaconError>)
        ensures
            reads_as(s@, holds_ticket, res),
    {
        match Beacon::decode(s) {
            Ok(payload) => {
                assert(beacon_text(payload@) == s@);
                if holds_ticket {
                    Ok(Beacon { payload })
                } else {
                    Err(BeaconError::InvalidTicket)
                }
            },
            Err(e) => Err(e),
        }
    }

    /// The payload of a text in the form of a Beacon.
    pub fn decode(s: &str) -> (res: Result<Vec<u8>, BeaconError>)
        ensures
            decodes_to(s@, res),
            res matches Ok(payload) ==> payload@.len() <= encoding::MAX_ENCODED,
    {
        if !text::starts_with(s, BEACON_PREFIX) {
            return Err(BeaconError::MissingPrefix);
        }
        let rest: &str = s.substring_char(BEACON_PREFIX.unicode_len(), s.unicode_len());
        let ghost prefix_len = BEACON_PREFIX@.len() as int;
        assert(rest@ =~= s@.skip(prefix_len));
        assert(s@ =~= s@.take(prefix_len) + rest@);
        let encoded: &[u8] = rest.as_bytes();
        if encoded.len() > encoding::MAX_ENCODED {
            return Err(BeaconError::TooLong);
        }
        match encoding::base64url_decode(encoded) {
            Some(payload) => {
                proof {
                    lemma_base64url_is_ascii(payload@);
                    utf8::encode_utf8_decode_utf8(rest@);
                    utf8::encode_utf8_decode_utf8(
                        encoding::ascii_text(encoding::base64url(payload@)),
                    );
                    encoding::base64url_is_injective(payload@, payload@);
                }
                Ok(payload)
            },
            None => {
                assert forall|payload: Seq<u8>| #[trigger] beacon_text(payload) != s@ by {
                    if beacon_text(payload) == s@ {
                        let symbols = encoding::ascii_text(encoding::base64url(payload));
                        assert((BEACON_PREFIX@ + symbols).skip(prefix_len) =~= symbols);
                        lemma_base64url_is_ascii(payload);
                    }
                }
                Err(BeaconError::InvalidEncoding)
            },
        }
    }
}

/// The base64url form of `data` is ASCII, so that each symbol is one byte of the text.
proof fn lemma_base64url_is_ascii(data: Seq<u8>)
    ensures
        utf8::encode_utf8(encoding::ascii_text(encoding::base64url(data))) == encoding::base64url(
            data,
        ),
{
    let symbols = encoding::base64url(data);
    let chars = encoding::ascii_text(symbols);
    lemma_symbols_are_ascii(data);
    assert forall|i: int| 0 <= i < chars.len() implies '\0' <= #[trigger] chars[i] <= '\u{7f}' by {
        assert(chars[i] == symbols[i] as char);
    }
    assert(utf8::is_ascii_chars(chars));
    utf8::is_ascii_chars_encode_utf8(chars);
    assert(utf8::encode_utf8(chars) =~= symbols);
}

/// Every symbol of the base64url form of `data` is an ASCII code.
proof fn lemma_symbols_are_ascii(data: Seq<u8>)
    ensures
        forall|i: int|
            0 <= i < encoding::base64url(data).len() ==> #[trigger] encoding::base64url(data)[i]
                < 128,
    decreases data.len(),
{
    if data.len() >= 3 {
        lemma_symbols_are_ascii(data.skip(3));
        let tail = encoding::base64url(data.skip(3));
        let all = encoding::base64url(data);
        assert forall|i: int| 0 <= i < all.len() implies #[trigger] all[i] < 128 by {
            if i >= 4 {
                assert(all[i] == tail[i - 4]);
            }
        }
    }
}

/// A Beacon that was written is read back as the same Beacon, as long as it holds a ticket, and
/// no other text is read as it.
pub proof fn written_beacon_is_read_back(
    payload: Seq<u8>,
    text: Seq<char>,
    holds_ticket: bool,
    res: Result<Beacon, BeaconError>,
)
    requires
        reads_as(text, holds_ticket, res),
    ensures
        text == beacon_text(payload) && encoding::base64url(payload).len() <= encoding::MAX_ENCODED
            ==> if holds_ticket {
            res matches Ok(beacon) && beacon@ == payload
        } else {
            res matches Err(e) && e == BeaconError::InvalidTicket
        },
        (res matches Ok(beacon) && beacon@ == payload) ==> text == beacon_text(payload)
            && holds_ticket,
{
    if text == beacon_text(payload) && encoding::base64url(payload).len()
        <= encoding::MAX_ENCODED {
        let symbols = encoding::ascii_text(encoding::base64url(payload));
        let n = BEACON_PREFIX@.len() as int;
        assert(text.take(n) =~= BEACON_PREFIX@);
        assert(text.skip(n) =~= symbols);
        lemma_base64url_is_ascii(payload);
        assert(has_form(text));
        if let Ok(beacon) = res {
            beacons_are_unambiguous(beacon@, payload);
        }
    }
}

/// No two Beacons are written the same.
pub proof fn beacons_are_unambiguous(a: Seq<u8>, b: Seq<u8>)
    requires
        beacon_text(a) == beacon_text(b),
    ensures
        a == b,
{
    let n = BEACON_PREFIX@.len() as int;
    let sa = encoding::ascii_text(encoding::base64url(a));
    let sb = encoding::ascii_text(encoding::base64url(b));
    assert((BEACON_PREFIX@ + sa).skip(n) =~= sa);
    assert((BEACON_PREFIX@ + sb).skip(n) =~= sb);
    lemma_base64url_is_ascii(a);
    lemma_base64url_is_ascii(b);
    encoding::base64url_is_injective(a, b);
}

/// A text is read as a Beacon exactly if it is `orbit-v1-` and a payload in base64url, short enough
/// to be decoded, and holds a ticket; the Beacon then has this payload. Otherwise the error says
/// what is missing, the prefix first, then the length, the encoding and the ticket.
pub proof fn beacons_are_a_prefix_and_a_ticket(
    text: Seq<char>,
    holds_ticket: bool,
    res: Result<Beacon, BeaconError>,
    payload: Seq<u8>,
)
    requires
        reads_as(text, holds_ticket, res),
    ensures
        res == Err::<Beacon, BeaconError>(BeaconError::MissingPrefix) <==> !text::begins_with(
            text,
            "orbit-v1-"@,
        ),
        res == Err::<Beacon, BeaconError>(BeaconError::TooLong) <==> text::begins_with(
            text,
            "orbit-v1-"@,
        ) && utf8::encode_utf8(text.skip(9)).len() > encoding::MAX_ENCODED,
        res matches Ok(beacon) ==> text == "orbit-v1-"@ + encoding::ascii_text(
            encoding::base64url(beacon@),
        ) && holds_ticket,
        text == "orbit-v1-"@ + encoding::ascii_text(encoding::base64url(payload)) ==> match res {
            Ok(beacon) => holds_ticket && beacon@ == payload,
            Err(e) => {
                &&& e == BeaconError::InvalidTicket || e == BeaconError::TooLong
                &&& e == BeaconError::InvalidTicket ==> !holds_ticket
                &&& e == BeaconError::TooLong ==> encoding::base64url(payload).len()
                    > encoding::MAX_ENCODED
            },
        },
        res == Err::<Beacon, BeaconError>(BeaconError::InvalidTicket) ==> !holds_ticket && exists|
            p: Seq<u8>,
        |
            text == "orbit-v1-"@ + encoding::ascii_text(#[trigger] encoding::base64url(p)),
{
    reveal_strlit("orbit-v1-");
    if text == "orbit-v1-"@ + encoding::ascii_text(encoding::base64url(payload)) {
        assert(text == beacon_text(payload));
        let symbols = encoding::ascii_text(encoding::base64url(payload));
        let n = BEACON_PREFIX@.len() as int;
        assert(text.take(n) =~= BEACON_PREFIX@);
        assert(text.skip(n) =~= symbols);
        lemma_base64url_is_ascii(payload);
        assert(has_form(text));
        if let Ok(beacon) = res {
            beacons_are_unambiguous(beacon@, payload);
        }
    }
    if has_form(text) {
        let p = choose|p: Seq<u8>| #[trigger] beacon_text(p) == text;
        assert(text == "orbit-v1-"@ + encoding::ascii_text(encoding::base64url(p)));
    }
}

/// A text is decoded exactly if it is `orbit-v1-` and a payload in base64url, short enough to be
/// decoded; and what comes out is this payload.
pub proof fn decoding_finds_the_payload(
    text: Seq<char>,
    res: Result<Vec<u8>, BeaconError>,
    payload: Seq<u8>,
)
    requires
        decodes_to(text, res),
    ensures
        !(res matches Err(e) && e == BeaconError::InvalidTicket),
        res == Err::<Vec<u8>, BeaconError>(BeaconError::MissingPrefix) <==> !text::begins_with(
            text,
            "orbit-v1-"@,
        ),
        res == Err::<Vec<u8>, BeaconError>(BeaconError::TooLong) <==> text::begins_with(
            text,
            "orbit-v1-"@,
        ) && utf8::encode_utf8(text.skip(9)).len() > encoding::MAX_ENCODED,
        res matches Ok(found) ==> text == "orbit-v1-"@ + encoding::ascii_text(
            encoding::base64url(found@),
        ),
        text == "orbit-v1-"@ + encoding::ascii_text(encoding::base64url(payload)) ==> match res {
            Ok(found) => found@ == payload,
            Err(e) => e == BeaconError::TooLong && encoding::base64url(payload).len()
                > encoding::MAX_ENCODED,
        },
{
    reveal_strlit("orbit-v1-");
    if text == "orbit-v1-"@ + encoding::ascii_text(encoding::base64url(payload)) {
        assert(text == beacon_text(payload));
        let symbols = encoding::ascii_text(encoding::base64url(payload));
        let n = BEACON_PREFIX@.len() as int;
        assert(text.take(n) =~= BEACON_PREFIX@);
        assert(text.skip(n) =~= symbols);
        lemma_base64url_is_ascii(payload);
        assert(has_form(text));
        if let Ok(found) = res {
            beacons_are_unambiguous(found@, payload);
        }
    }
}

/// How the errors are worded.
pub proof fn words_for_beacon_errors(error: BeaconError)
    ensures
        error is MissingPrefix ==> error_text(error) == "beacon must start with 'orbit-v1-'"@,
        error is TooLong ==> error_text(error) == "beacon is too long"@,
        error is InvalidEncoding ==> error_text(error) == "beacon is not valid base64url"@,
        error is InvalidTicket ==> error_text(error) == "beacon holds no document ticket"@,
{
}

} // verus!
