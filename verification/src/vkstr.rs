//! Decoding the NUL-terminated C strings the driver hands out, and the
//! search for the Khronos validation layer among the enumerated layers.

use vstd::prelude::*;
use vstd::utf8::decode_utf8;
use vstd::utf8::valid_utf8;

verus! {

/// The raw C characters reinterpreted as bytes.
pub open spec fn byte_view(raw: Seq<i8>) -> Seq<u8> {
    Seq::new(raw.len(), |i: int| raw[i] as u8)
}

/// Whether the bytes hold a NUL terminator anywhere.
pub open spec fn has_nul(bytes: Seq<u8>) -> bool {
    exists|i: int| 0 <= i < bytes.len() && bytes[i] == 0
}

/// The bytes before the first NUL, or all of them where none occurs.
pub open spec fn nul_prefix(bytes: Seq<u8>) -> Seq<u8>
    decreases bytes.len(),
{
    if bytes.len() == 0 {
        Seq::empty()
    } else if bytes[0] == 0 {
        Seq::empty()
    } else {
        seq![bytes[0]] + nul_prefix(bytes.drop_first())
    }
}

/// What a raw driver string decodes to: the UTF-8 decoding of the bytes
/// before the first NUL, where the terminator exists and the prefix is
/// valid UTF-8.
pub open spec fn decoded_c_string(raw: Seq<i8>) -> Option<Seq<char>> {
    if has_nul(byte_view(raw)) && valid_utf8(nul_prefix(byte_view(raw))) {
        Some(decode_utf8(nul_prefix(byte_view(raw))))
    } else {
        None
    }
}

/// A scan that passed `n` non-NUL bytes has walked exactly the prefix
/// before the first NUL; a NUL exists exactly when the scan stopped short
/// of the end.
proof fn lemma_nul_prefix_take(bytes: Seq<u8>, n: int)
    requires
        0 <= n <= bytes.len(),
        forall|j: int| 0 <= j < n ==> bytes[j] != 0,
        n < bytes.len() ==> bytes[n] == 0,
    ensures
        nul_prefix(bytes) == bytes.take(n),
        has_nul(bytes) <==> n < bytes.len(),
    decreases bytes.len(),
{
    if n == 0 {
        assert(nul_prefix(bytes) =~= bytes.take(0));
        if n < bytes.len() {
            assert(bytes[0] == 0);
        }
    } else {
        let rest = bytes.drop_first();
        assert(forall|j: int| 0 <= j < n - 1 ==> rest[j] == bytes[j + 1] && bytes[j + 1] != 0);
        assert(n - 1 < rest.len() ==> rest[n - 1] == bytes[n] && bytes[n] == 0);
        lemma_nul_prefix_take(rest, n - 1);
        assert(nul_prefix(bytes) == seq![bytes[0]] + nul_prefix(rest));
        assert(seq![bytes[0]] + rest.take(n - 1) =~= bytes.take(n));
        if has_nul(bytes) {
            let i = choose|i: int| 0 <= i < bytes.len() && bytes[i] == 0;
            assert(i != 0);
            assert(rest[i - 1] == 0);
            assert(has_nul(rest));
        }
        if has_nul(rest) {
            let i = choose|i: int| 0 <= i < rest.len() && rest[i] == 0;
            assert(bytes[i + 1] == 0);
            assert(has_nul(bytes));
        }
    }
}

/// Relies on `String::from_utf8`: it returns `Ok` exactly when the bytes
/// are valid UTF-8, and the string then holds their decoding.
#[verifier::external_body]
fn string_from_utf8(bytes: Vec<u8>) -> (r: Option<String>)
    ensures
        r is Some <==> valid_utf8(bytes@),
        r is Some ==> r.unwrap()@ == decode_utf8(bytes@),
{
    match String::from_utf8(bytes) {
        Ok(s) => Some(s),
        Err(_) => None,
    }
}

/// Decode a raw character array as the driver's C string: the bytes before
/// the first NUL, read as UTF-8. `None` where no NUL terminator exists or
/// the prefix is not valid UTF-8.
pub fn vk_to_string(raw_string_array: &[i8]) -> (r: Option<String>)
    ensures
        r is Some <==> decoded_c_string(raw_string_array@) is Some,
        r is Some ==> Some(r.unwrap()@) == decoded_c_string(raw_string_array@),
{
    let ghost bytes = byte_view(raw_string_array@);
    let n = raw_string_array.len();
    let mut prefix: Vec<u8> = Vec::new();
    let mut i: usize = 0;
    while i < n
        invariant
            i <= n == raw_string_array@.len(),
            bytes == byte_view(raw_string_array@),
            prefix@ == bytes.take(i as int),
            forall|j: int| 0 <= j < i ==> bytes[j] != 0,
        decreases n - i,
    {
        let c = raw_string_array[i];
        if c == 0 {
            proof {
                lemma_nul_prefix_take(bytes, i as int);
            }
            return string_from_utf8(prefix);
        }
        prefix.push(c as u8);
        proof {
            assert(c != 0 ==> (c as u8) != 0) by (bit_vector);
            assert(prefix@ =~= bytes.take(i + 1));
        }
        i = i + 1;
    }
    proof {
        lemma_nul_prefix_take(bytes, n as int);
    }
    None
}

/// Whether one raw layer name is the Khronos validation layer's.
pub fn is_validation_layer_name(raw_name: &[i8]) -> (r: bool)
    ensures
        r <==> decoded_c_string(raw_name@) == Some("VK_LAYER_KHRONOS_validation"@),
{
    match vk_to_string(raw_name) {
        Some(name) => {
            let target: String = String::from_str("VK_LAYER_KHRONOS_validation");
            name == target
        },
        None => false,
    }
}

/// Whether any of the enumerated layers' names is the Khronos validation
/// layer's.
pub fn has_validation_layer(layer_names: &Vec<Vec<i8>>) -> (r: bool)
    ensures
        r <==> exists|i: int|
            0 <= i < layer_names@.len() && #[trigger] decoded_c_string(layer_names@[i]@) == Some(
                "VK_LAYER_KHRONOS_validation"@,
            ),
{
    let mut i: usize = 0;
    while i < layer_names.len()
        invariant
            i <= layer_names@.len(),
            forall|j: int|
                0 <= j < i ==> #[trigger] decoded_c_string(layer_names@[j]@) != Some(
                    "VK_LAYER_KHRONOS_validation"@,
                ),
        decreases layer_names@.len() - i,
    {
        if is_validation_layer_name(layer_names[i].as_slice()) {
            return true;
        }
        i = i + 1;
    }
    false
}

} // verus!
