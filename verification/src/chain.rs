//! The parts of `cosmwasm_std` that the contracts build their answers with:
//! responses with attributes, and standard errors.

use vstd::prelude::*;
use vstd::utf8::encode_utf8;

verus! {

#[verifier::external_type_specification]
#[verifier::external_body]
pub struct ExEmpty(cosmwasm_std::Empty);

#[verifier::external_type_specification]
#[verifier::external_body]
#[verifier::reject_recursive_types(T)]
pub struct ExResponse<T>(cosmwasm_std::Response<T>);

#[verifier::external_type_specification]
#[verifier::external_body]
pub struct ExStdError(cosmwasm_std::StdError);

/// The attributes of the main event of a response, in the order they were
/// added, each as a (key, value) pair.
pub uninterp spec fn response_attributes(r: cosmwasm_std::Response) -> Seq<(Seq<char>, Seq<char>)>;

/// The response carries no messages, no events and no data.
pub uninterp spec fn response_is_bare(r: cosmwasm_std::Response) -> bool;

/// Calls `Response::new`, which gives a response with no messages, no
/// attributes, no events and no data.
#[verifier::external_body]
pub(crate) fn new_response() -> (r: cosmwasm_std::Response)
    ensures
        response_attributes(r) == Seq::<(Seq<char>, Seq<char>)>::empty(),
        response_is_bare(r),
{
    cosmwasm_std::Response::new()
}

/// Calls `Response::add_attribute`, which appends the pair (`key`, `value`)
/// to the attributes of the main event and leaves the messages, events and
/// data as they were. In debug
/// builds `Attribute::new` panics on a key that starts with an underscore;
/// such keys are left out.
#[verifier::external_body]
pub(crate) fn add_attribute(r: cosmwasm_std::Response, key: &str, value: String) -> (out: cosmwasm_std::Response)
    requires
        key@.len() == 0 || key@[0] != '_',
    ensures
        response_attributes(out) == response_attributes(r).push((key@, value@)),
        response_is_bare(out) == response_is_bare(r),
{
    r.add_attribute(key, value)
}

/// What `StdError::not_found` returns for a kind of record.
pub uninterp spec fn not_found_error(kind: Seq<char>) -> cosmwasm_std::StdError;

/// Calls `StdError::not_found`, the error that a load of an absent record
/// gives; its message is the kind followed by " not found".
#[verifier::external_body]
pub(crate) fn not_found(kind: &str) -> (e: cosmwasm_std::StdError)
    ensures
        e == not_found_error(kind@),
{
    cosmwasm_std::StdError::not_found(kind)
}

/// Where a record sits in contract storage: the length of the namespace as
/// two big-endian bytes, the namespace, then the record's key.
pub open spec fn storage_key(namespace: Seq<u8>, key: Seq<u8>) -> Seq<u8> {
    seq![(namespace.len() / 256) as u8, (namespace.len() % 256) as u8] + namespace + key
}

/// The upper-case hexadecimal digit of `n`, for `n` below 16.
pub open spec fn hex_char(n: int) -> char {
    if n < 10 {
        (48 + n) as char
    } else {
        (55 + n) as char
    }
}

/// A byte as two upper-case hexadecimal digits.
pub open spec fn hex_byte(b: u8) -> Seq<char> {
    seq![hex_char((b / 16) as int), hex_char((b % 16) as int)]
}

/// The bytes in two-digit hexadecimal, separated by a comma and a space.
pub open spec fn hex_items(bytes: Seq<u8>) -> Seq<char>
    decreases bytes.len(),
{
    if bytes.len() == 0 {
        Seq::empty()
    } else if bytes.len() == 1 {
        hex_byte(bytes[0])
    } else {
        hex_items(bytes.drop_last()) + seq![',', ' '] + hex_byte(bytes.last())
    }
}

/// The bytes as a bracketed list of two-digit hexadecimal numbers, such as
/// `[00, 0D, 61]`.
pub open spec fn hex_list(bytes: Seq<u8>) -> Seq<char> {
    seq!['['] + hex_items(bytes) + seq![']']
}

/// What a load of an absent record reports as the missing kind: the stored
/// type's path and the record's storage key, as
/// `type: <path>; key: [<hex bytes>]`.
pub open spec fn missing_record_kind(type_path: Seq<char>, namespace: Seq<char>, key: Seq<char>) -> Seq<char> {
    seq!['t', 'y', 'p', 'e', ':', ' '] + type_path + seq![';', ' ', 'k', 'e', 'y', ':', ' ']
        + hex_list(storage_key(encode_utf8(namespace), encode_utf8(key)))
}

/// The upper-case hexadecimal digit of `n`.
fn hex_digit(n: u8) -> (r: &'static str)
    requires
        n < 16,
    ensures
        r@ == seq![hex_char(n as int)],
{
    proof {
        reveal_strlit("0");
        reveal_strlit("1");
        reveal_strlit("2");
        reveal_strlit("3");
        reveal_strlit("4");
        reveal_strlit("5");
        reveal_strlit("6");
        reveal_strlit("7");
        reveal_strlit("8");
        reveal_strlit("9");
        reveal_strlit("A");
        reveal_strlit("B");
        reveal_strlit("C");
        reveal_strlit("D");
        reveal_strlit("E");
        reveal_strlit("F");
    }
    match n {
        0u8 => "0",
        1u8 => "1",
        2u8 => "2",
        3u8 => "3",
        4u8 => "4",
        5u8 => "5",
        6u8 => "6",
        7u8 => "7",
        8u8 => "8",
        9u8 => "9",
        10u8 => "A",
        11u8 => "B",
        12u8 => "C",
        13u8 => "D",
        14u8 => "E",
        _ => "F",
    }
}

/// Appends `hex_list(bytes)` to `out`.
fn append_hex_list(out: &mut String, bytes: &Vec<u8>)
    ensures
        final(out)@ == old(out)@ + hex_list(bytes@),
{
    proof {
        reveal_strlit("[");
        reveal_strlit("]");
        reveal_strlit(", ");
    }
    let ghost start = out@;
    out.append("[");
    let n = bytes.len();
    let mut i: usize = 0;
    while i < n
        invariant
            n == bytes@.len(),
            i <= n,
            out@ == start + seq!['['] + hex_items(bytes@.take(i as int)),
        decreases n - i,
    {
        proof {
            reveal_strlit(", ");
        }
        let b = bytes[i];
        if i > 0 {
            out.append(", ");
        }
        out.append(hex_digit(b / 16));
        out.append(hex_digit(b % 16));
        proof {
            let t = bytes@.take(i + 1);
            assert(t.drop_last() =~= bytes@.take(i as int));
            assert(t.last() == b);
            assert(hex_byte(b) =~= seq![hex_char((b / 16) as int), hex_char((b % 16) as int)]);
            if i == 0 {
                assert(t.len() == 1);
                assert(t[0] == b);
                assert(hex_items(t) == hex_byte(b));
                assert(hex_items(bytes@.take(0)) =~= Seq::<char>::empty());
            } else {
                assert(hex_items(t) == hex_items(bytes@.take(i as int)) + seq![',', ' '] + hex_byte(b));
            }
            assert(out@ =~= start + seq!['['] + hex_items(t));
        }
        i = i + 1;
    }
    assert(bytes@.take(n as int) =~= bytes@);
    out.append("]");
    assert(out@ =~= start + hex_list(bytes@));
}

/// Appends the bytes of `s` to `v`.
fn push_bytes(v: &mut Vec<u8>, s: &str)
    ensures
        final(v)@ == old(v)@ + encode_utf8(s@),
{
    let bytes = s.as_bytes();
    let n = bytes.len();
    let ghost start = v@;
    let mut i: usize = 0;
    while i < n
        invariant
            n == bytes@.len(),
            bytes@ == encode_utf8(s@),
            i <= n,
            v@ == start + bytes@.take(i as int),
        decreases n - i,
    {
        v.push(bytes[i]);
        assert(v@ =~= start + bytes@.take(i + 1));
        i = i + 1;
    }
    assert(bytes@.take(n as int) =~= bytes@);
}

/// The error that a load of the record stored under `key` in `namespace`
/// gives when there is none: not found, with the kind
/// `missing_record_kind(type_path, namespace, key)`.
pub(crate) fn missing_record(type_path: &str, namespace: &str, key: &String) -> (e: cosmwasm_std::StdError)
    ensures
        e == not_found_error(missing_record_kind(type_path@, namespace@, key@)),
{
    let mut bytes: Vec<u8> = Vec::new();
    let ns_len = namespace.as_bytes().len();
    bytes.push((ns_len / 256) as u8);
    bytes.push((ns_len % 256) as u8);
    push_bytes(&mut bytes, namespace);
    push_bytes(&mut bytes, key.as_str());
    assert(bytes@ =~= storage_key(encode_utf8(namespace@), encode_utf8(key@)));
    proof {
        reveal_strlit("type: ");
        reveal_strlit("; key: ");
    }
    let mut kind = String::new();
    kind.append("type: ");
    kind.append(type_path);
    kind.append("; key: ");
    append_hex_list(&mut kind, &bytes);
    assert(kind@ =~= missing_record_kind(type_path@, namespace@, key@));
    not_found(kind.as_str())
}

} // verus!
