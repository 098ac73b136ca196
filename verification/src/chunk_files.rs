//! The names of the files that hold the chunks on disk: one file for a chunk, named by
//! the address of the chunk in hexadecimal digits.

use crate::blob::BlobAddress;
use crate::name::lemma_same_bytes_same_name;
use vstd::prelude::*;

verus! {

/// The number of characters in the name of a chunk's file.
pub const FILE_NAME_LEN: usize = 66;

/// The character, in ASCII, of the hexadecimal digit `n`.
pub open spec fn hex_digit(n: u8) -> u8
    recommends
        n < 16,
{
    if n < 10 {
        (48 + n) as u8
    } else {
        (87 + n) as u8
    }
}

/// The bytes in hexadecimal: two digits for a byte, the high one first, in lower case.
pub open spec fn hex_of(bytes: Seq<u8>) -> Seq<u8> {
    Seq::new(
        2 * bytes.len(),
        |i: int|
            if i % 2 == 0 {
                hex_digit(bytes[i / 2] / 16)
            } else {
                hex_digit(bytes[i / 2] % 16)
            },
    )
}

/// The byte that says of which kind an address is: 0 for private, 1 for public.
pub open spec fn kind_byte(address: BlobAddress) -> u8 {
    if address.is_public() {
        1
    } else {
        0
    }
}

/// An address as bytes: the byte of its kind, then the bytes of its name.
pub open spec fn address_bytes(address: BlobAddress) -> Seq<u8> {
    seq![kind_byte(address)] + address.name()@
}

/// The character of a hexadecimal digit.
fn digit(n: u8) -> (c: u8)
    requires
        n < 16,
    ensures
        c == hex_digit(n),
{
    if n < 10 {
        48 + n
    } else {
        87 + n
    }
}

/// The name of the file that holds the chunk at `address`: the address in hexadecimal,
/// as ASCII characters.
pub fn file_name(address: &BlobAddress) -> (name: Vec<u8>)
    ensures
        name@ == hex_of(address_bytes(*address)),
        name@.len() == FILE_NAME_LEN,
{
    let kind: u8 = if address.is_public() {
        1
    } else {
        0
    };
    let bytes: [u8; 32] = address.name().0;
    let ghost all = address_bytes(*address);
    let mut name: Vec<u8> = Vec::new();
    name.push(digit(kind / 16));
    name.push(digit(kind % 16));
    let mut i: usize = 0;
    while i < 32
        invariant
            0 <= i <= 32,
            all == seq![kind] + bytes@,
            name@.len() == 2 * (i + 1),
            forall|k: int| 0 <= k < name@.len() ==> #[trigger] name@[k] == hex_of(all)[k],
        decreases 32 - i,
    {
        let byte: u8 = bytes[i];
        assert(all[i + 1] == byte);
        name.push(digit(byte / 16));
        name.push(digit(byte % 16));
        i = i + 1;
    }
    assert(name@ =~= hex_of(all));
    name
}

/// A hexadecimal digit tells its number.
proof fn lemma_hex_digit_tells(a: u8, b: u8)
    requires
        a < 16,
        b < 16,
        hex_digit(a) == hex_digit(b),
    ensures
        a == b,
{
}

/// No two addresses have the same file name, so no two chunks share a file.
pub proof fn lemma_file_names_differ(a: BlobAddress, b: BlobAddress)
    requires
        hex_of(address_bytes(a)) == hex_of(address_bytes(b)),
    ensures
        a == b,
{
    let x = address_bytes(a);
    let y = address_bytes(b);
    assert(x.len() == 33 && y.len() == 33);
    assert forall|i: int| 0 <= i < 33 implies x[i] == y[i] by {
        let high_x = hex_of(x)[2 * i];
        let high_y = hex_of(y)[2 * i];
        let low_x = hex_of(x)[2 * i + 1];
        let low_y = hex_of(y)[2 * i + 1];
        assert(high_x == hex_digit(x[i] / 16));
        assert(high_y == hex_digit(y[i] / 16));
        assert(low_x == hex_digit(x[i] % 16));
        assert(low_y == hex_digit(y[i] % 16));
        lemma_hex_digit_tells(x[i] / 16, y[i] / 16);
        lemma_hex_digit_tells(x[i] % 16, y[i] % 16);
    }
    assert(kind_byte(a) == x[0] && kind_byte(b) == y[0]);
    assert(a.name()@ =~= b.name()@) by {
        assert forall|i: int| 0 <= i < 32 implies a.name()@[i] == b.name()@[i] by {
            assert(x[i + 1] == a.name()@[i]);
            assert(y[i + 1] == b.name()@[i]);
        }
    }
    lemma_same_bytes_same_name(a.name(), b.name());
}

} // verus!
