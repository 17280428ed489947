//! Pairing persistence: the Ed25519 keys of paired controllers and the
//! receiver's own identity seed, each kept as 64 lowercase hex digits.
//! Reading and writing the file are the application's part.

use vstd::prelude::*;
use vstd::utf8::{encode_utf8, is_ascii_chars, is_ascii_chars_encode_utf8};
use crate::text::push_char;
use crate::config::opt_view;

verus! {

/// The hex digit for the value `v` (below sixteen in every use): `0`-`9`,
/// then `a`, `b`, ... upward.
pub open spec fn nibble_char(v: u8) -> char {
    if v <= 9 {
        ((48 + v) as u8) as char
    } else {
        ((97 + (v - 10)) as u8) as char
    }
}

/// The value of an ASCII hex digit, of either case.
pub open spec fn hex_value(b: u8) -> Option<u8> {
    if 48 <= b <= 57 {
        Some((b - 48) as u8)
    } else if 97 <= b <= 102 {
        Some((b - 97 + 10) as u8)
    } else if 65 <= b <= 70 {
        Some((b - 65 + 10) as u8)
    } else {
        None
    }
}

/// The lowercase hex text of `b`: two digits per byte, high nibble first.
pub open spec fn hex_encode(b: Seq<u8>) -> Seq<char> {
    Seq::new(
        2 * b.len(),
        |i: int|
            if i % 2 == 0 {
                nibble_char((b[i / 2] >> 4) & 0x0f)
            } else {
                nibble_char(b[i / 2] & 0x0f)
            },
    )
}

/// The 32 bytes written by exactly 64 hex digits (either case), high nibble
/// first; nothing for any other byte text.
pub open spec fn hex_decode_bytes(b: Seq<u8>) -> Option<Seq<u8>> {
    if b.len() == 64 && forall|i: int| 0 <= i < 64 ==> #[trigger] hex_value(b[i]) is Some {
        Some(
            Seq::new(
                32,
                |i: int| (hex_value(b[2 * i])->0 * 16 + hex_value(b[2 * i + 1])->0) as u8,
            ),
        )
    } else {
        None
    }
}

/// `hex_decode_bytes` of the UTF-8 encoding of a text.
pub open spec fn hex_decode_text(s: Seq<char>) -> Option<Seq<u8>> {
    hex_decode_bytes(encode_utf8(s))
}

/// A 32-byte array, if any, as a byte sequence.
pub open spec fn opt_bytes(r: Option<[u8; 32]>) -> Option<Seq<u8>> {
    match r {
        Some(a) => Some(a@),
        None => None,
    }
}

/// The hex digit of `v`.
pub fn nibble_to_hex(v: u8) -> (c: char)
    requires
        v <= 168,
    ensures
        c == nibble_char(v),
{
    if v <= 9 {
        (48u8 + v) as char
    } else {
        (97u8 + (v - 10)) as char
    }
}

/// The value of the hex digit `v`, if it is one.
pub fn hex_to_nibble(v: u8) -> (r: Option<u8>)
    ensures
        r == hex_value(v),
{
    if 48 <= v && v <= 57 {
        Some(v - 48)
    } else if 97 <= v && v <= 102 {
        Some(v - 97 + 10)
    } else if 65 <= v && v <= 70 {
        Some(v - 65 + 10)
    } else {
        None
    }
}

/// The 64-digit lowercase hex text of 32 bytes.
pub fn encode_hex_32(bytes: [u8; 32]) -> (s: String)
    ensures
        s@ == hex_encode(bytes@),
{
    let mut out = String::new();
    for i in 0..32
        invariant
            bytes@.len() == 32,
            out@ =~= hex_encode(bytes@.take(i as int)),
    {
        let b: u8 = bytes[i];
        let hi: u8 = (b >> 4) & 0x0F;
        let lo: u8 = b & 0x0F;
        assert(hi < 16 && lo < 16) by (bit_vector)
            requires
                hi == (b >> 4) & 0x0F,
                lo == b & 0x0F,
        ;
        push_char(&mut out, nibble_to_hex(hi));
        push_char(&mut out, nibble_to_hex(lo));
        assert(bytes@.take(i + 1)[i as int] == b);
        assert(out@ =~= hex_encode(bytes@.take(i + 1))) by {
            assert forall|j: int| 0 <= j < 2 * i implies #[trigger] hex_encode(
                bytes@.take(i + 1),
            )[j] == hex_encode(bytes@.take(i as int))[j] by {
                assert(j / 2 < i);
            }
        }
    }
    assert(bytes@.take(32) =~= bytes@);
    out
}

/// The 32 bytes written by a 64-digit hex text, if `s` is one.
pub fn decode_hex_32(s: &str) -> (r: Option<[u8; 32]>)
    ensures
        opt_bytes(r) == hex_decode_text(s@),
{
    let bytes = s.as_bytes();
    assert(bytes@ == encode_utf8(s@));
    if bytes.len() != 64 {
        return None;
    }
    let mut out = [0u8; 32];
    for i in 0..32
        invariant
            bytes@ == encode_utf8(s@),
            bytes@.len() == 64,
            out@.len() == 32,
            forall|j: int| 0 <= j < 2 * i ==> #[trigger] hex_value(bytes@[j]) is Some,
            forall|k: int|
                0 <= k < i ==> #[trigger] out@[k] == (hex_value(bytes@[2 * k])->0 * 16
                    + hex_value(bytes@[2 * k + 1])->0) as u8,
    {
        let hi_opt = hex_to_nibble(bytes[2 * i]);
        let hi: u8 = match hi_opt {
            Some(h) => h,
            None => {
                assert(!(hex_value(bytes@[2 * i as int]) is Some));
                return None;
            },
        };
        let lo_opt = hex_to_nibble(bytes[2 * i + 1]);
        let lo: u8 = match lo_opt {
            Some(l) => l,
            None => {
                assert(!(hex_value(bytes@[2 * i + 1]) is Some));
                return None;
            },
        };
        let v: u8 = (hi << 4) | lo;
        assert(v == hi * 16 + lo) by (bit_vector)
            requires
                hi < 16,
                lo < 16,
                v == (hi << 4) | lo,
        ;
        out[i] = v;
    }
    assert(out@ =~= hex_decode_text(s@)->0);
    Some(out)
}


proof fn lemma_nibble_roundtrip(v: u8)
    requires
        v < 16,
    ensures
        '\0' <= nibble_char(v) <= '\u{7f}',
        hex_value(nibble_char(v) as u8) == Some(v),
{
}

proof fn lemma_byte_from_nibbles(x: u8)
    ensures
        ((x >> 4) & 0x0f) < 16,
        (x & 0x0f) < 16,
        (((x >> 4) & 0x0f) * 16 + (x & 0x0f)) as u8 == x,
{
    assert(((x >> 4) & 0x0f) < 16) by (bit_vector);
    assert((x & 0x0f) < 16) by (bit_vector);
    assert((((x >> 4) & 0x0f) * 16 + (x & 0x0f)) as u8 == x) by (bit_vector);
}

/// The character code of the standard lowercase hex digit of `n` (below
/// sixteen): `0`..`9`, then `a`..`f`.
pub open spec fn standard_digit_code(n: int) -> int {
    if n < 10 {
        48 + n
    } else {
        87 + n
    }
}

/// The value of a byte read as a hex digit, if it is one: `0`..`9` are 0..9,
/// `a`..`f` and `A`..`F` are 10..15.
pub open spec fn standard_digit_value(x: u8) -> Option<int> {
    if 48 <= x <= 57 {
        Some(x - 48)
    } else if 97 <= x <= 102 {
        Some(x - 87)
    } else if 65 <= x <= 70 {
        Some(x - 55)
    } else {
        None
    }
}

/// `nibble_to_hex` writes the standard lowercase digit of every value below
/// sixteen, and `hex_to_nibble` reads every byte as the standard digit value.
pub proof fn lemma_digits_are_standard(v: u8, x: u8)
    ensures
        v < 16 ==> nibble_char(v) as u32 == standard_digit_code(v as int),
        match standard_digit_value(x) {
            Some(n) => hex_value(x) matches Some(h) && h == n,
            None => hex_value(x) is None,
        },
{
}

/// Keys are written as standard lowercase hex: byte `k` becomes the digit of
/// its high nibble (`b[k] / 16`) followed by the digit of its low nibble
/// (`b[k] % 16`), each digit being `0`..`9` then `a`..`f`.
pub proof fn lemma_hex_encode_is_standard(b: Seq<u8>)
    ensures
        hex_encode(b).len() == 2 * b.len(),
        forall|k: int|
            0 <= k < b.len() ==> {
                &&& #[trigger] hex_encode(b)[2 * k] as u32 == standard_digit_code(b[k] as int / 16)
                &&& hex_encode(b)[2 * k + 1] as u32 == standard_digit_code(b[k] as int % 16)
            },
{
    assert forall|k: int| 0 <= k < b.len() implies {
        &&& #[trigger] hex_encode(b)[2 * k] as u32 == standard_digit_code(b[k] as int / 16)
        &&& hex_encode(b)[2 * k + 1] as u32 == standard_digit_code(b[k] as int % 16)
    } by {
        let x = b[k];
        assert((x >> 4) & 0x0f == x / 16) by (bit_vector);
        assert(x & 0x0f == x % 16) by (bit_vector);
        assert((2 * k) % 2 == 0 && (2 * k) / 2 == k);
        assert((2 * k + 1) % 2 == 1 && (2 * k + 1) / 2 == k);
        let hi = (x / 16) as u8;
        let lo = (x % 16) as u8;
        assert(nibble_char(hi) as u32 == standard_digit_code(hi as int));
        assert(nibble_char(lo) as u32 == standard_digit_code(lo as int));
    }
}

/// Hex text is read in the standard way: it gives 32 bytes exactly when it is
/// 64 bytes that are all hex digits of either case, and then byte `k` is
/// sixteen times the value of digit `2k` plus the value of digit `2k + 1`.
pub proof fn lemma_hex_decode_is_standard(e: Seq<u8>)
    ensures
        hex_decode_bytes(e) is Some <==> e.len() == 64 && forall|i: int|
            0 <= i < 64 ==> #[trigger] standard_digit_value(e[i]) is Some,
        hex_decode_bytes(e) matches Some(d) ==> {
            &&& d.len() == 32
            &&& forall|k: int|
                0 <= k < 32 ==> #[trigger] d[k] == 16 * standard_digit_value(e[2 * k])->0
                    + standard_digit_value(e[2 * k + 1])->0
        },
{
    assert forall|i: int| 0 <= i < e.len() implies (#[trigger] hex_value(e[i]) is Some
        <==> standard_digit_value(e[i]) is Some) && (hex_value(e[i]) is Some
        ==> hex_value(e[i])->0 == standard_digit_value(e[i])->0) by {}
    if e.len() == 64 && forall|i: int| 0 <= i < 64 ==> #[trigger] hex_value(e[i]) is Some {
        let d = hex_decode_bytes(e)->0;
        assert forall|i: int| 0 <= i < 64 implies #[trigger] standard_digit_value(e[i]) is Some by {
            assert(hex_value(e[i]) is Some);
        }
        assert forall|k: int| 0 <= k < 32 implies #[trigger] d[k] == 16
            * standard_digit_value(e[2 * k])->0 + standard_digit_value(e[2 * k + 1])->0 by {
            assert(hex_value(e[2 * k]) is Some);
            assert(hex_value(e[2 * k + 1]) is Some);
        }
    } else if e.len() == 64 {
        let i = choose|i: int| 0 <= i < 64 && !(#[trigger] hex_value(e[i]) is Some);
        assert(!(standard_digit_value(e[i]) is Some));
    }
}

/// Hex text of 32 bytes reads back as those bytes: decoding what
/// `encode_hex_32` writes gives its input again.
pub proof fn lemma_hex_roundtrip(b: Seq<u8>)
    requires
        b.len() == 32,
    ensures
        hex_decode_text(hex_encode(b)) == Some(b),
{
    let c = hex_encode(b);
    assert forall|i: int| 0 <= i < c.len() implies '\0' <= #[trigger] c[i] <= '\u{7f}' by {
        lemma_byte_from_nibbles(b[i / 2]);
        lemma_nibble_roundtrip((b[i / 2] >> 4) & 0x0f);
        lemma_nibble_roundtrip(b[i / 2] & 0x0f);
    }
    assert(is_ascii_chars(c));
    is_ascii_chars_encode_utf8(c);
    let e = encode_utf8(c);
    assert forall|i: int| 0 <= i < 64 implies #[trigger] hex_value(e[i]) is Some by {
        assert(e[i] == c[i] as u8);
        lemma_byte_from_nibbles(b[i / 2]);
        lemma_nibble_roundtrip((b[i / 2] >> 4) & 0x0f);
        lemma_nibble_roundtrip(b[i / 2] & 0x0f);
    }
    let d = hex_decode_bytes(e)->0;
    assert forall|k: int| 0 <= k < 32 implies #[trigger] d[k] == b[k] by {
        assert(e[2 * k] == c[2 * k] as u8);
        assert(e[2 * k + 1] == c[2 * k + 1] as u8);
        assert((2 * k) / 2 == k);
        assert((2 * k + 1) / 2 == k);
        assert((2 * k) % 2 == 0);
        assert((2 * k + 1) % 2 == 1);
        lemma_byte_from_nibbles(b[k]);
        lemma_nibble_roundtrip((b[k] >> 4) & 0x0f);
        lemma_nibble_roundtrip(b[k] & 0x0f);
    }
    assert(d =~= b);
}


/// What the pairing file holds: the identity seed and, per controller id,
/// its public key, both as hex text.
#[derive(Clone, Debug)]
pub struct PairingFileState {
    pub identity_seed_hex: Option<String>,
    /// Controller id and hex key; where an id occurs twice the later entry
    /// holds.
    pub paired_devices_hex: Vec<(String, String)>,
}

/// The pairing state as texts: the identity seed, and a map from controller
/// id to hex key.
pub struct PairingModel {
    pub identity: Option<Seq<char>>,
    pub devices: Map<Seq<char>, Seq<char>>,
}

/// The map that a list of (id, key) entries stands for; a later entry for an
/// id overrides an earlier one.
pub open spec fn entries_map(es: Seq<(String, String)>) -> Map<Seq<char>, Seq<char>>
    decreases es.len(),
{
    if es.len() == 0 {
        Map::empty()
    } else {
        entries_map(es.drop_last()).insert(es.last().0@, es.last().1@)
    }
}

/// The entries of `es` whose id is not `k`, in their order.
pub open spec fn without_key(es: Seq<(String, String)>, k: Seq<char>) -> Seq<(String, String)>
    decreases es.len(),
{
    if es.len() == 0 {
        es
    } else if es.last().0@ == k {
        without_key(es.drop_last(), k)
    } else {
        without_key(es.drop_last(), k).push(es.last())
    }
}

impl View for PairingFileState {
    type V = PairingModel;

    open spec fn view(&self) -> PairingModel {
        PairingModel {
            identity: opt_view(self.identity_seed_hex),
            devices: entries_map(self.paired_devices_hex@),
        }
    }
}

/// The key stored for controller `d`, decoded; nothing when none is stored
/// or the stored text is not 64 hex digits.
pub open spec fn stored_key(m: PairingModel, d: Seq<char>) -> Option<Seq<u8>> {
    if m.devices.contains_key(d) {
        hex_decode_text(m.devices[d])
    } else {
        None
    }
}

/// The stored identity seed, decoded.
pub open spec fn stored_identity(m: PairingModel) -> Option<Seq<u8>> {
    match m.identity {
        Some(h) => hex_decode_text(h),
        None => None,
    }
}

/// Whether any controller is paired.
pub open spec fn has_pairing(m: PairingModel) -> bool {
    exists|d: Seq<char>| #[trigger] m.devices.contains_key(d)
}

/// `m` with the key of controller `d` set to `key`.
pub open spec fn with_device(m: PairingModel, d: Seq<char>, key: Seq<u8>) -> PairingModel {
    PairingModel { identity: m.identity, devices: m.devices.insert(d, hex_encode(key)) }
}

/// `m` without controller `d`.
pub open spec fn without_device(m: PairingModel, d: Seq<char>) -> PairingModel {
    PairingModel { identity: m.identity, devices: m.devices.remove(d) }
}

/// `m` with the identity seed set to `seed`.
pub open spec fn with_identity(m: PairingModel, seed: Seq<u8>) -> PairingModel {
    PairingModel { identity: Some(hex_encode(seed)), devices: m.devices }
}

proof fn lemma_without_key(es: Seq<(String, String)>, k: Seq<char>)
    ensures
        entries_map(without_key(es, k)) == entries_map(es).remove(k),
    decreases es.len(),
{
    if es.len() > 0 {
        lemma_without_key(es.drop_last(), k);
        if es.last().0@ == k {
            assert(entries_map(es).remove(k) =~= entries_map(es.drop_last()).remove(k));
        } else {
            let w = without_key(es.drop_last(), k);
            assert(w.push(es.last()).drop_last() =~= w);
            assert(entries_map(without_key(es, k)) =~= entries_map(es).remove(k));
        }
    }
}

impl Default for PairingFileState {
    fn default() -> (s: Self)
        ensures
            s@.identity is None,
            s@.devices == Map::<Seq<char>, Seq<char>>::empty(),
    {
        PairingFileState { identity_seed_hex: None, paired_devices_hex: Vec::new() }
    }
}

impl PairingFileState {
    /// The hex key stored for `device_id`, if any.
    fn lookup(&self, device_id: &str) -> (r: Option<&String>)
        ensures
            match r {
                Some(h) => self@.devices.contains_key(device_id@) && h@ == self@.devices[device_id@],
                None => !self@.devices.contains_key(device_id@),
            },
    {
        let key = device_id.to_owned();
        let es = &self.paired_devices_hex;
        let mut found: Option<&String> = None;
        for i in 0..es.len()
            invariant
                key@ == device_id@,
                match found {
                    Some(h) => entries_map(es@.take(i as int)).contains_key(key@) && h@
                        == entries_map(es@.take(i as int))[key@],
                    None => !entries_map(es@.take(i as int)).contains_key(key@),
                },
        {
            assert(es@.take(i + 1).drop_last() =~= es@.take(i as int));
            if es[i].0 == key {
                found = Some(&es[i].1);
            }
        }
        assert(es@.take(es.len() as int) =~= es@);
        found
    }

    /// The entries without those for `device_id`.
    fn entries_without(&self, device_id: &str) -> (r: Vec<(String, String)>)
        ensures
            entries_map(r@) == self@.devices.remove(device_id@),
    {
        let key = device_id.to_owned();
        let es = &self.paired_devices_hex;
        let mut out: Vec<(String, String)> = Vec::new();
        for i in 0..es.len()
            invariant
                key@ == device_id@,
                out@ == without_key(es@.take(i as int), key@),
        {
            assert(es@.take(i + 1).drop_last() =~= es@.take(i as int));
            if es[i].0 != key {
                let entry = (es[i].0.clone(), es[i].1.clone());
                out.push(entry);
            }
        }
        assert(es@.take(es.len() as int) =~= es@);
        proof {
            lemma_without_key(es@, key@);
        }
        out
    }
}

/// The pairing state of a receiver together with the path of the file it
/// is kept in.
pub struct FilePairingStore {
    path: String,
    state: PairingFileState,
}

impl View for FilePairingStore {
    type V = PairingModel;

    closed spec fn view(&self) -> PairingModel {
        self.state@
    }
}

impl FilePairingStore {
    /// The path of the pairing file.
    pub closed spec fn path_text(&self) -> Seq<char> {
        self.path@
    }

    /// A store for the file at `path` holding `state`.
    pub fn new(path: String, state: PairingFileState) -> (s: Self)
        ensures
            s@ == state@,
            s.path_text() == path@,
    {
        FilePairingStore { path, state }
    }

    /// The path of the pairing file.
    pub fn path(&self) -> (p: &String)
        ensures
            p@ == self.path_text(),
    {
        &self.path
    }

    /// The state to write to the file.
    pub fn state(&self) -> (s: &PairingFileState)
        ensures
            s@ == self@,
    {
        &self.state
    }

    /// The public key of controller `device_id`, if one is stored and its
    /// text is 64 hex digits.
    pub fn get(&self, device_id: &str) -> (r: Option<[u8; 32]>)
        ensures
            opt_bytes(r) == stored_key(self@, device_id@),
    {
        match self.state.lookup(device_id) {
            Some(h) => decode_hex_32(h.as_str()),
            None => None,
        }
    }

    /// Stores `public_key` as the key of controller `device_id`, replacing
    /// any key stored before.
    pub fn put(&mut self, device_id: &str, public_key: [u8; 32])
        ensures
            final(self)@ == with_device(old(self)@, device_id@, public_key@),
            final(self).path_text() == old(self).path_text(),
    {
        let mut es = self.state.entries_without(device_id);
        let ghost before = es@;
        let hex = encode_hex_32(public_key);
        es.push((device_id.to_owned(), hex));
        assert(es@.drop_last() =~= before);
        self.state.paired_devices_hex = es;
        assert(self.state@.devices =~= old(self)@.devices.insert(device_id@, hex_encode(public_key@)));
    }

    /// Forgets controller `device_id`.
    pub fn remove(&mut self, device_id: &str)
        ensures
            final(self)@ == without_device(old(self)@, device_id@),
            final(self).path_text() == old(self).path_text(),
    {
        let es = self.state.entries_without(device_id);
        self.state.paired_devices_hex = es;
    }

    /// Whether any controller is paired.
    pub fn has_any_pairing(&self) -> (r: bool)
        ensures
            r == has_pairing(self@),
    {
        let es = &self.state.paired_devices_hex;
        if es.len() == 0 {
            assert(!has_pairing(self@)) by {
                assert(self@.devices =~= Map::<Seq<char>, Seq<char>>::empty());
            }
            false
        } else {
            assert(self@.devices.contains_key(es@.last().0@));
            true
        }
    }

    /// The stored identity seed, if one is stored and its text is 64 hex
    /// digits.
    pub fn load_identity(&self) -> (r: Option<[u8; 32]>)
        ensures
            opt_bytes(r) == stored_identity(self@),
    {
        match &self.state.identity_seed_hex {
            Some(h) => decode_hex_32(h.as_str()),
            None => None,
        }
    }

    /// Stores `seed` as the identity seed.
    pub fn save_identity(&mut self, seed: [u8; 32])
        ensures
            final(self)@ == with_identity(old(self)@, seed@),
            final(self).path_text() == old(self).path_text(),
    {
        self.state.identity_seed_hex = Some(encode_hex_32(seed));
    }
}


/// A key that is put can be got back: after `put(d, key)`, `get(d)` gives
/// `key`.
pub proof fn lemma_get_after_put(m: PairingModel, d: Seq<char>, key: Seq<u8>)
    requires
        key.len() == 32,
    ensures
        stored_key(with_device(m, d, key), d) == Some(key),
{
    lemma_hex_roundtrip(key);
}

/// Putting a key for one controller leaves what `get` gives for every other
/// controller, and the identity, as they were.
pub proof fn lemma_put_keeps_others(m: PairingModel, d: Seq<char>, other: Seq<char>, key: Seq<u8>)
    requires
        d != other,
    ensures
        stored_key(with_device(m, d, key), other) == stored_key(m, other),
        stored_identity(with_device(m, d, key)) == stored_identity(m),
{
}

/// After a key is put, some controller is paired.
pub proof fn lemma_put_makes_paired(m: PairingModel, d: Seq<char>, key: Seq<u8>)
    ensures
        has_pairing(with_device(m, d, key)),
{
    assert(with_device(m, d, key).devices.contains_key(d));
}

/// A removed controller has no key: after `remove(d)`, `get(d)` gives
/// nothing.
pub proof fn lemma_get_after_remove(m: PairingModel, d: Seq<char>)
    ensures
        stored_key(without_device(m, d), d) is None,
{
}

/// Removing one controller leaves what `get` gives for every other
/// controller, and the identity, as they were.
pub proof fn lemma_remove_keeps_others(m: PairingModel, d: Seq<char>, other: Seq<char>)
    requires
        d != other,
    ensures
        stored_key(without_device(m, d), other) == stored_key(m, other),
        stored_identity(without_device(m, d)) == stored_identity(m),
{
}

/// Removing the only paired controller leaves none paired.
pub proof fn lemma_remove_last_unpairs(m: PairingModel, d: Seq<char>)
    requires
        forall|k: Seq<char>| #[trigger] m.devices.contains_key(k) ==> k == d,
    ensures
        !has_pairing(without_device(m, d)),
{
}

/// A saved identity seed is loaded back, and saving it leaves every
/// controller's key as it was.
pub proof fn lemma_identity_after_save(m: PairingModel, seed: Seq<u8>, d: Seq<char>)
    requires
        seed.len() == 32,
    ensures
        stored_identity(with_identity(m, seed)) == Some(seed),
        stored_key(with_identity(m, seed), d) == stored_key(m, d),
{
    lemma_hex_roundtrip(seed);
}

} // verus!
