//! The wire forms at the edge of the engine: call arguments, storage keys,
//! logs.

use crate::address::Address;
use crate::backend::{Log, LogView};
use crate::word::Word;
use vstd::prelude::*;

verus! {

/// The 20 bytes of an address.
pub type RawAddress = [u8; 20];

/// The 32 big-endian bytes of a word.
pub type RawU256 = [u8; 32];

/// `String::push` of std: the character is added at the end.
pub assume_specification[ String::push ](s: &mut String, ch: char)
    ensures
        final(s)@ == old(s)@.push(ch),
;

/// The arguments of a call of a contract at a known address.
pub struct FunctionCallArgs {
    /// The callee.
    pub contract: RawAddress,
    /// The input.
    pub input: Vec<u8>,
}

/// The arguments of a read-only call with a chosen sender and value.
pub struct ViewCallArgs {
    /// The sender.
    pub sender: RawAddress,
    /// The callee.
    pub address: RawAddress,
    /// The value that the callee sees, big-endian.
    pub amount: RawU256,
    /// The input.
    pub input: Vec<u8>,
}

/// The kinds of key in the host's store.
#[derive(Clone, Copy, Debug, PartialEq, Eq, Structural)]
pub enum KeyPrefix {
    /// The code of an account.
    Code,
    /// The balance of an account.
    Balance,
    /// The nonce of an account.
    Nonce,
    /// A storage slot of an account.
    Storage,
}

impl KeyPrefix {
    /// The byte that keys of this kind start with.
    pub open spec fn spec_byte(self) -> u8 {
        match self {
            KeyPrefix::Code => 0u8,
            KeyPrefix::Balance => 1u8,
            KeyPrefix::Nonce => 2u8,
            KeyPrefix::Storage => 3u8,
        }
    }

    /// The byte that keys of this kind start with.
    #[verifier::when_used_as_spec(spec_byte)]
    pub fn byte(self) -> (r: u8)
        ensures
            r == self.spec_byte(),
    {
        match self {
            KeyPrefix::Code => 0,
            KeyPrefix::Balance => 1,
            KeyPrefix::Nonce => 2,
            KeyPrefix::Storage => 3,
        }
    }
}

/// The key of a property of an account: the prefix, then the address.
pub open spec fn account_key(prefix: KeyPrefix, address: Address) -> Seq<u8> {
    seq![prefix.spec_byte()] + address.be_bytes()
}

/// The key of a storage slot: the storage prefix, the address, the index.
pub open spec fn slot_key(address: Address, key: Word) -> Seq<u8> {
    seq![KeyPrefix::Storage.spec_byte()] + address.be_bytes() + key.be_bytes()
}

/// The key of a property of an account in the host's store.
pub fn address_to_key(prefix: KeyPrefix, address: &Address) -> (r: [u8; 21])
    ensures
        r@ == account_key(prefix, *address),
{
    let bytes = address.to_be_vec();
    let mut result = [0u8; 21];
    result[0] = prefix.byte();
    let mut i: usize = 0;
    while i < 20
        invariant
            i <= 20,
            bytes.len() == 20,
            result@[0] == prefix.spec_byte(),
            forall|j: int| 0 <= j < i ==> result@[1 + j] == bytes@[j],
        decreases 20 - i,
    {
        result[1 + i] = bytes[i];
        i = i + 1;
    }
    assert(result@ =~= account_key(prefix, *address));
    result
}

/// The key of a storage slot in the host's store.
pub fn storage_to_key(address: &Address, key: &Word) -> (r: [u8; 53])
    ensures
        r@ == slot_key(*address, *key),
{
    let a = address.to_be_vec();
    let k = key.to_be_vec();
    let mut result = [0u8; 53];
    result[0] = KeyPrefix::Storage.byte();
    let mut i: usize = 0;
    while i < 20
        invariant
            i <= 20,
            a.len() == 20,
            result@[0] == 3u8,
            forall|j: int| 0 <= j < i ==> result@[1 + j] == a@[j],
        decreases 20 - i,
    {
        result[1 + i] = a[i];
        i = i + 1;
    }
    let mut i: usize = 0;
    while i < 32
        invariant
            i <= 32,
            a.len() == 20,
            k.len() == 32,
            result@[0] == 3u8,
            forall|j: int| 0 <= j < 20 ==> result@[1 + j] == a@[j],
            forall|j: int| 0 <= j < i ==> result@[21 + j] == k@[j],
        decreases 32 - i,
    {
        result[21 + i] = k[i];
        i = i + 1;
    }
    assert(result@ =~= slot_key(*address, *key));
    result
}

/// The wire forms of words, one after the other.
pub open spec fn words_bytes(words: Seq<Word>) -> Seq<u8>
    decreases words.len(),
{
    if words.len() == 0 {
        Seq::empty()
    } else {
        words_bytes(words.drop_last()) + words.last().be_bytes()
    }
}

/// The wire form of a log: one byte with the number of topics, the topics
/// with 32 bytes each, the data.
pub open spec fn log_bytes(log: LogView) -> Seq<u8> {
    seq![(log.topics.len() % 256) as u8] + words_bytes(log.topics) + log.data
}

/// The wire form of a log.
pub fn log_to_bytes(log: Log) -> (r: Vec<u8>)
    ensures
        r@ == log_bytes(log@),
{
    let mut result: Vec<u8> = Vec::new();
    let n = log.topics.len();
    result.push((n % 256) as u8);
    let mut i: usize = 0;
    while i < n
        invariant
            i <= n,
            n == log.topics@.len(),
            result@ == seq![(n % 256) as u8] + words_bytes(log.topics@.subrange(0, i as int)),
        decreases n - i,
    {
        let mut bytes = log.topics[i].to_be_vec();
        result.append(&mut bytes);
        proof {
            let next = log.topics@.subrange(0, i + 1);
            assert(next.drop_last() =~= log.topics@.subrange(0, i as int));
            assert(next.last() == log.topics@[i as int]);
            assert(result@ =~= seq![(n % 256) as u8] + words_bytes(next));
        }
        i = i + 1;
    }
    assert(log.topics@.subrange(0, n as int) =~= log.topics@);
    let mut data = log.data;
    let ghost d = data@;
    result.append(&mut data);
    assert(result@ =~= log_bytes(log@));
    result
}

/// The lowercase hexadecimal digit of a number below 16.
pub open spec fn hex_digit(n: u8) -> char {
    if n == 0 {
        '0'
    } else if n == 1 {
        '1'
    } else if n == 2 {
        '2'
    } else if n == 3 {
        '3'
    } else if n == 4 {
        '4'
    } else if n == 5 {
        '5'
    } else if n == 6 {
        '6'
    } else if n == 7 {
        '7'
    } else if n == 8 {
        '8'
    } else if n == 9 {
        '9'
    } else if n == 10 {
        'a'
    } else if n == 11 {
        'b'
    } else if n == 12 {
        'c'
    } else if n == 13 {
        'd'
    } else if n == 14 {
        'e'
    } else {
        'f'
    }
}

/// The lowercase hexadecimal form of a byte string: two digits for each
/// byte, the high one first.
pub open spec fn hex_chars(v: Seq<u8>) -> Seq<char> {
    Seq::new(
        2 * v.len(),
        |i: int|
            if i % 2 == 0 {
                hex_digit(v[i / 2] / 16)
            } else {
                hex_digit(v[i / 2] % 16)
            },
    )
}

fn digit(n: u8) -> (r: char)
    requires
        n < 16,
    ensures
        r == hex_digit(n),
{
    match n {
        0 => '0',
        1 => '1',
        2 => '2',
        3 => '3',
        4 => '4',
        5 => '5',
        6 => '6',
        7 => '7',
        8 => '8',
        9 => '9',
        10 => 'a',
        11 => 'b',
        12 => 'c',
        13 => 'd',
        14 => 'e',
        _ => 'f',
    }
}

/// The lowercase hexadecimal form of a byte string.
pub fn bytes_to_hex(v: &[u8]) -> (r: String)
    ensures
        r@ == hex_chars(v@),
{
    let mut result = String::new();
    let n = v.len();
    let mut i: usize = 0;
    while i < n
        invariant
            i <= n,
            n == v@.len(),
            result@ == hex_chars(v@.subrange(0, i as int)),
        decreases n - i,
    {
        let x = v[i];
        result.push(digit(x / 16));
        result.push(digit(x % 16));
        assert(result@ =~= hex_chars(v@.subrange(0, i + 1)));
        i = i + 1;
    }
    assert(v@.subrange(0, n as int) =~= v@);
    result
}

} // verus!
