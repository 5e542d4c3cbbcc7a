use vstd::prelude::*;

verus! {

/// The bytes that bincode's standard configuration gives for one `u64`.
pub uninterp spec fn encoded_id(id: u64) -> Seq<u8>;

/// What bincode's standard configuration reads as one `u64` from the front
/// of `bytes`; `None` where it reports an error.
pub uninterp spec fn decoded_id(bytes: Seq<u8>) -> Option<u64>;

/// The bytes that bincode's standard configuration gives for a `u64`
/// followed by a `u128`.
pub uninterp spec fn encoded_id_amount(id: u64, amount: u128) -> Seq<u8>;

/// What bincode's standard configuration reads as a `u64` followed by a
/// `u128` from the front of `bytes`; `None` where it reports an error.
pub uninterp spec fn decoded_id_amount(bytes: Seq<u8>) -> Option<(u64, u128)>;

/// The bytes that bincode's standard configuration gives for two `u64`
/// followed by a `u128`.
pub uninterp spec fn encoded_transfer(from_id: u64, to_id: u64, amount: u128) -> Seq<u8>;

/// What bincode's standard configuration reads as two `u64` followed by a
/// `u128` from the front of `bytes`; `None` where it reports an error.
pub uninterp spec fn decoded_transfer(bytes: Seq<u8>) -> Option<(u64, u64, u128)>;

/// The bytes that bincode's standard configuration gives for a `u64`, a
/// `u32` and a byte vector: an event's id, the index of its kind and its
/// payload.
pub uninterp spec fn encoded_event(id: u64, type_index: u32, data: Seq<u8>) -> Seq<u8>;

/// What bincode's standard configuration reads as a `u64`, a `u32` and a
/// byte vector from the front of `bytes`; `None` where it reports an
/// error.
pub uninterp spec fn decoded_event(bytes: Seq<u8>) -> Option<(u64, u32, Seq<u8>)>;

/// What bincode's standard configuration reads as a `u64`, a `u32` and a
/// `u64` from the front of `bytes`, with the number of bytes it read;
/// `None` where it reports an error. Read from an event record, the three
/// are the event's id, the index of its kind and the length that the
/// record announces for its payload.
pub uninterp spec fn decoded_event_head(bytes: Seq<u8>) -> Option<((u64, u32, u64), usize)>;

/// The head of a record can be read, and the record holds at least as
/// many bytes after the head as the head announces for the payload.
pub open spec fn payload_follows_head(
    length: nat,
    head: Option<((u64, u32, u64), usize)>,
) -> bool {
    match head {
        Some(((_, _, announced), read)) => read <= length && announced <= length - read,
        None => false,
    }
}

/// The JSON text that serde_json gives for an object with the number field
/// `id` and the string fields `event_type` and `data`, in this order.
pub uninterp spec fn json_event(id: u64, event_type: Seq<char>, data: Seq<char>) -> Seq<char>;

/// The decimal digit of a number below ten.
pub open spec fn digit(d: nat) -> char {
    if d == 0 {
        '0'
    } else if d == 1 {
        '1'
    } else if d == 2 {
        '2'
    } else if d == 3 {
        '3'
    } else if d == 4 {
        '4'
    } else if d == 5 {
        '5'
    } else if d == 6 {
        '6'
    } else if d == 7 {
        '7'
    } else if d == 8 {
        '8'
    } else {
        '9'
    }
}

/// The decimal digits of a number, most significant first, without
/// leading zeros.
pub open spec fn decimal(n: nat) -> Seq<char>
    decreases n,
{
    if n < 10 {
        seq![digit(n)]
    } else {
        decimal(n / 10).push(digit(n % 10))
    }
}

/// The compact JSON text of an object with the one number field `id`.
pub open spec fn json_id(id: u64) -> Seq<char> {
    "{\"id\":"@ + decimal(id as nat) + "}"@
}

/// The compact JSON text of an object with the number fields `id` and
/// `amount`, in this order.
pub open spec fn json_id_amount(id: u64, amount: u128) -> Seq<char> {
    "{\"id\":"@ + decimal(id as nat) + ",\"amount\":"@ + decimal(amount as nat) + "}"@
}

/// The compact JSON text of an object with the number fields `from_id`,
/// `to_id` and `amount`, in this order.
pub open spec fn json_transfer(from_id: u64, to_id: u64, amount: u128) -> Seq<char> {
    "{\"from_id\":"@ + decimal(from_id as nat) + ",\"to_id\":"@ + decimal(to_id as nat)
        + ",\"amount\":"@ + decimal(amount as nat) + "}"@
}

/// Calls `u64::to_string`. Trusted: the text is the number in decimal
/// digits, without sign or leading zeros.
#[verifier::external_body]
pub(crate) fn decimal_text(n: u64) -> (r: String)
    ensures
        r@ == decimal(n as nat),
{
    n.to_string()
}

/// Calls `u128::to_string`. Trusted: the text is the number in decimal
/// digits, without sign or leading zeros.
#[verifier::external_body]
pub(crate) fn decimal_text_wide(n: u128) -> (r: String)
    ensures
        r@ == decimal(n as nat),
{
    n.to_string()
}

/// Calls `String::push_str`. Trusted: the text is then what it was,
/// followed by `tail`.
#[verifier::external_body]
pub(crate) fn append(text: &mut String, tail: &str)
    ensures
        final(text)@ == old(text)@ + tail@,
{
    text.push_str(tail);
}

/// `head` followed by `tail`.
pub fn joined(head: &str, tail: &str) -> (r: String)
    ensures
        r@ == head@ + tail@,
{
    let mut text = head.to_owned();
    append(&mut text, tail);
    text
}

/// The value of a decimal digit; nothing for any other character.
pub open spec fn digit_value(c: char) -> Option<nat> {
    if c == '0' {
        Some(0)
    } else if c == '1' {
        Some(1)
    } else if c == '2' {
        Some(2)
    } else if c == '3' {
        Some(3)
    } else if c == '4' {
        Some(4)
    } else if c == '5' {
        Some(5)
    } else if c == '6' {
        Some(6)
    } else if c == '7' {
        Some(7)
    } else if c == '8' {
        Some(8)
    } else if c == '9' {
        Some(9)
    } else {
        None
    }
}

/// The number that a text of decimal digits spells; nothing for the
/// empty text and for a text that holds any other character.
pub open spec fn digits_value(text: Seq<char>) -> Option<nat>
    decreases text.len(),
{
    if text.len() == 0 {
        None
    } else if text.len() == 1 {
        digit_value(text[0])
    } else {
        match (digits_value(text.drop_last()), digit_value(text.last())) {
            (Some(n), Some(d)) => Some(n * 10 + d),
            _ => None,
        }
    }
}

/// The number that a text stands for: what its decimal digits spell,
/// after a `+` that may stand before them, where that fits in 64 bits.
pub open spec fn parsed_u64(text: Seq<char>) -> Option<u64> {
    let digits = if text.len() > 0 && text[0] == '+' {
        text.drop_first()
    } else {
        text
    };
    match digits_value(digits) {
        Some(n) => if n <= u64::MAX {
            Some(n as u64)
        } else {
            None
        },
        None => None,
    }
}

/// Calls `str::parse::<u64>`. Trusted: it returns the number that the
/// text stands for, and reports an error for every other text: the empty
/// one, one with a character that is no digit but for a `+` in the first
/// place, and one whose number does not fit in 64 bits.
#[verifier::external_body]
pub(crate) fn parse_u64(text: &str) -> (r: Option<u64>)
    ensures
        r == parsed_u64(text@),
{
    match text.parse::<u64>() {
        Ok(n) => Some(n),
        Err(_) => None,
    }
}

/// Calls `bincode::encode_to_vec` on a `u64` with `bincode::config::standard()`.
/// Trusted: the call succeeds, its bytes are those named by `encoded_id`,
/// and bincode reads the same number back from them.
#[verifier::external_body]
pub(crate) fn encode_id(id: u64) -> (r: Vec<u8>)
    ensures
        r@ == encoded_id(id),
        decoded_id(r@) == Some(id),
{
    bincode::encode_to_vec(id, bincode::config::standard()).unwrap()
}

/// Calls `bincode::decode_from_slice` for a `u64` with
/// `bincode::config::standard()`. Trusted: the value it returns is the one
/// named by `decoded_id`; bytes after the value are ignored.
#[verifier::external_body]
pub(crate) fn decode_id(bytes: &[u8]) -> (r: Option<u64>)
    ensures
        r == decoded_id(bytes@),
{
    match bincode::decode_from_slice::<u64, _>(bytes, bincode::config::standard()) {
        Ok((value, _)) => Some(value),
        Err(_) => None,
    }
}

/// Calls `bincode::encode_to_vec` on a pair of a `u64` and a `u128` with
/// `bincode::config::standard()`. Trusted: the call succeeds, its bytes are
/// those named by `encoded_id_amount`, and bincode reads the same pair back
/// from them.
#[verifier::external_body]
pub(crate) fn encode_id_amount(id: u64, amount: u128) -> (r: Vec<u8>)
    ensures
        r@ == encoded_id_amount(id, amount),
        decoded_id_amount(r@) == Some((id, amount)),
{
    bincode::encode_to_vec((id, amount), bincode::config::standard()).unwrap()
}

/// Calls `bincode::decode_from_slice` for a pair of a `u64` and a `u128`
/// with `bincode::config::standard()`. Trusted: the value it returns is the
/// one named by `decoded_id_amount`; bytes after the value are ignored.
#[verifier::external_body]
pub(crate) fn decode_id_amount(bytes: &[u8]) -> (r: Option<(u64, u128)>)
    ensures
        r == decoded_id_amount(bytes@),
{
    match bincode::decode_from_slice::<(u64, u128), _>(bytes, bincode::config::standard()) {
        Ok((value, _)) => Some(value),
        Err(_) => None,
    }
}

/// Calls `bincode::encode_to_vec` on two `u64` and a `u128` with
/// `bincode::config::standard()`. Trusted: the call succeeds, its bytes are
/// those named by `encoded_transfer`, and bincode reads the same triple
/// back from them.
#[verifier::external_body]
pub(crate) fn encode_transfer(from_id: u64, to_id: u64, amount: u128) -> (r: Vec<u8>)
    ensures
        r@ == encoded_transfer(from_id, to_id, amount),
        decoded_transfer(r@) == Some((from_id, to_id, amount)),
{
    bincode::encode_to_vec((from_id, to_id, amount), bincode::config::standard()).unwrap()
}

/// Calls `bincode::decode_from_slice` for two `u64` and a `u128` with
/// `bincode::config::standard()`. Trusted: the value it returns is the one
/// named by `decoded_transfer`; bytes after the value are ignored.
#[verifier::external_body]
pub(crate) fn decode_transfer(bytes: &[u8]) -> (r: Option<(u64, u64, u128)>)
    ensures
        r == decoded_transfer(bytes@),
{
    match bincode::decode_from_slice::<(u64, u64, u128), _>(bytes, bincode::config::standard()) {
        Ok((value, _)) => Some(value),
        Err(_) => None,
    }
}

/// Calls `bincode::encode_to_vec` on a `u64`, a `u32` and a byte vector
/// with `bincode::config::standard()`. Trusted: the call succeeds, its
/// bytes are those named by `encoded_event`, bincode reads the same three
/// values back from them, and read as a `u64`, a `u32` and a `u64` their
/// head announces no more payload than follows it.
#[verifier::external_body]
pub(crate) fn encode_event(id: u64, type_index: u32, data: &Vec<u8>) -> (r: Vec<u8>)
    ensures
        r@ == encoded_event(id, type_index, data@),
        decoded_event(r@) == Some((id, type_index, data@)),
        payload_follows_head(r@.len(), decoded_event_head(r@)),
{
    bincode::encode_to_vec((id, type_index, data), bincode::config::standard()).unwrap()
}

/// Calls `bincode::decode_from_slice` for a `u64`, a `u32` and a `u64` with
/// `bincode::config::standard()`. Trusted: the value and the count of bytes
/// read that it returns are those named by `decoded_event_head`, and the
/// count is at most the length of the input.
#[verifier::external_body]
pub(crate) fn decode_event_head(bytes: &[u8]) -> (r: Option<((u64, u32, u64), usize)>)
    ensures
        r == decoded_event_head(bytes@),
        r matches Some((_, read)) ==> read <= bytes@.len(),
{
    match bincode::decode_from_slice::<(u64, u32, u64), _>(bytes, bincode::config::standard()) {
        Ok(found) => Some(found),
        Err(_) => None,
    }
}

/// Calls `bincode::decode_from_slice` for a `u64`, a `u32` and a byte
/// vector with `bincode::config::standard()`. The call makes room for as
/// many bytes as the record announces before it reads them, so it is made
/// only on a record that holds them. Trusted: the values it returns are
/// those named by `decoded_event`; bytes after them are ignored.
#[verifier::external_body]
pub(crate) fn decode_event(bytes: &[u8]) -> (r: Option<(u64, u32, Vec<u8>)>)
    requires
        payload_follows_head(bytes@.len(), decoded_event_head(bytes@)),
    ensures
        match r {
            Some((id, type_index, data)) => decoded_event(bytes@) == Some(
                (id, type_index, data@),
            ),
            None => decoded_event(bytes@) is None,
        },
{
    match bincode::decode_from_slice::<(u64, u32, Vec<u8>), _>(
        bytes,
        bincode::config::standard(),
    ) {
        Ok((value, _)) => Some(value),
        Err(_) => None,
    }
}

/// Drives `serde_json::Serializer` over a struct with the one field `id`,
/// as a derived `Serialize` does. Trusted: no step fails, and the text is
/// the compact JSON object with this field and the id in decimal digits.
#[verifier::external_body]
pub(crate) fn write_json_id(id: u64) -> (r: String)
    ensures
        r@ == json_id(id),
{
    let mut out: Vec<u8> = Vec::new();
    let mut serializer = serde_json::Serializer::new(&mut out);
    let mut fields =
        serde::Serializer::serialize_struct(&mut serializer, "BalanceCreatedEvent", 1).unwrap();
    serde::ser::SerializeStruct::serialize_field(&mut fields, "id", &id).unwrap();
    serde::ser::SerializeStruct::end(fields).unwrap();
    String::from_utf8(out).unwrap()
}

/// Drives `serde_json::Serializer` over a struct with the fields `id` and
/// `amount`, as a derived `Serialize` does. Trusted: no step fails, and
/// the text is the compact JSON object with these fields in this order
/// and the numbers in decimal digits.
#[verifier::external_body]
pub(crate) fn write_json_id_amount(id: u64, amount: u128) -> (r: String)
    ensures
        r@ == json_id_amount(id, amount),
{
    let mut out: Vec<u8> = Vec::new();
    let mut serializer = serde_json::Serializer::new(&mut out);
    let mut fields =
        serde::Serializer::serialize_struct(&mut serializer, "BalanceDepositedEvent", 2).unwrap();
    serde::ser::SerializeStruct::serialize_field(&mut fields, "id", &id).unwrap();
    serde::ser::SerializeStruct::serialize_field(&mut fields, "amount", &amount).unwrap();
    serde::ser::SerializeStruct::end(fields).unwrap();
    String::from_utf8(out).unwrap()
}

/// Drives `serde_json::Serializer` over a struct with the fields
/// `from_id`, `to_id` and `amount`, as a derived `Serialize` does.
/// Trusted: no step fails, and the text is the compact JSON object with
/// these fields in this order and the numbers in decimal digits.
#[verifier::external_body]
pub(crate) fn write_json_transfer(from_id: u64, to_id: u64, amount: u128) -> (r: String)
    ensures
        r@ == json_transfer(from_id, to_id, amount),
{
    let mut out: Vec<u8> = Vec::new();
    let mut serializer = serde_json::Serializer::new(&mut out);
    let mut fields =
        serde::Serializer::serialize_struct(&mut serializer, "BalanceTransferredEvent", 3).unwrap();
    serde::ser::SerializeStruct::serialize_field(&mut fields, "from_id", &from_id).unwrap();
    serde::ser::SerializeStruct::serialize_field(&mut fields, "to_id", &to_id).unwrap();
    serde::ser::SerializeStruct::serialize_field(&mut fields, "amount", &amount).unwrap();
    serde::ser::SerializeStruct::end(fields).unwrap();
    String::from_utf8(out).unwrap()
}

/// Drives `serde_json::Serializer` over a struct with the number field
/// `id` and the string fields `event_type` and `data`, as a derived
/// `Serialize` does. Trusted: no step fails, and the text is the one named
/// by `json_event`.
#[verifier::external_body]
pub(crate) fn write_json_event(id: u64, event_type: &str, data: &str) -> (r: String)
    ensures
        r@ == json_event(id, event_type@, data@),
{
    let mut out: Vec<u8> = Vec::new();
    let mut serializer = serde_json::Serializer::new(&mut out);
    let mut fields =
        serde::Serializer::serialize_struct(&mut serializer, "BalanceEventData", 3).unwrap();
    serde::ser::SerializeStruct::serialize_field(&mut fields, "id", &id).unwrap();
    serde::ser::SerializeStruct::serialize_field(&mut fields, "event_type", event_type).unwrap();
    serde::ser::SerializeStruct::serialize_field(&mut fields, "data", data).unwrap();
    serde::ser::SerializeStruct::end(fields).unwrap();
    String::from_utf8(out).unwrap()
}

} // verus!
