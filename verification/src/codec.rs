use vstd::prelude::*;
use crate::address::Address;
use crate::minter::MinterConfig;
use crate::oracle::OracleState;
use crate::pda::{ascii_bytes, seed_bytes};

verus! {

broadcast use crate::address::lemma_address_len;

/// Length of the type tag that starts every program account.
pub const DISCRIMINATOR_SIZE: usize = 8;

/// The SHA-256 digest of `data`.
pub uninterp spec fn spec_sha256(data: Seq<u8>) -> Seq<u8>;

/// Calls `solana_sha256_hasher::hash`.
///
/// Claims only that the digest is the named SHA-256 of the input; its length
/// of 32 bytes comes from the array type.
#[verifier::external_body]
fn sha256(data: &[u8]) -> (r: [u8; 32])
    ensures
        r@ == spec_sha256(data@),
{
    solana_sha256_hasher::hash(data).to_bytes()
}

/// Little-endian bytes of a `u64`.
pub open spec fn le_bytes(x: u64) -> Seq<u8> {
    seq![
        x as u8,
        (x >> 8u64) as u8,
        (x >> 16u64) as u8,
        (x >> 24u64) as u8,
        (x >> 32u64) as u8,
        (x >> 40u64) as u8,
        (x >> 48u64) as u8,
        (x >> 56u64) as u8,
    ]
}

/// The `u64` whose little-endian bytes start `b` at `at`.
pub open spec fn le_value(b: Seq<u8>, at: int) -> u64 {
    (b[at] as u64) | ((b[at + 1] as u64) << 8u64) | ((b[at + 2] as u64) << 16u64) | ((b[at + 3] as u64)
        << 24u64) | ((b[at + 4] as u64) << 32u64) | ((b[at + 5] as u64) << 40u64) | ((b[at + 6] as u64)
        << 48u64) | ((b[at + 7] as u64) << 56u64)
}

/// Little-endian bytes are the base-256 digits of the value, least significant first.
pub proof fn lemma_le_bytes_are_digits(x: u64)
    ensures
        le_bytes(x)[0] == x % 0x100,
        le_bytes(x)[1] == (x / 0x100) % 0x100,
        le_bytes(x)[2] == (x / 0x1_0000) % 0x100,
        le_bytes(x)[3] == (x / 0x100_0000) % 0x100,
        le_bytes(x)[4] == (x / 0x1_0000_0000) % 0x100,
        le_bytes(x)[5] == (x / 0x100_0000_0000) % 0x100,
        le_bytes(x)[6] == (x / 0x1_0000_0000_0000) % 0x100,
        le_bytes(x)[7] == (x / 0x100_0000_0000_0000) % 0x100,
{
    assert(x as u8 == x % 0x100 && (x >> 8u64) as u8 == (x / 0x100) % 0x100 && (x >> 16u64) as u8 == (x
        / 0x1_0000) % 0x100 && (x >> 24u64) as u8 == (x / 0x100_0000) % 0x100 && (x >> 32u64) as u8 == (x
        / 0x1_0000_0000) % 0x100 && (x >> 40u64) as u8 == (x / 0x100_0000_0000) % 0x100 && (x >> 48u64)
        as u8 == (x / 0x1_0000_0000_0000) % 0x100 && (x >> 56u64) as u8 == (x / 0x100_0000_0000_0000)
        % 0x100) by (bit_vector);
}

/// A little-endian read is the base-256 number whose digits, least
/// significant first, are the eight bytes at `at`.
pub proof fn lemma_le_value_is_number(b: Seq<u8>, at: int)
    requires
        0 <= at,
        at + 8 <= b.len(),
    ensures
        le_value(b, at) as int == b[at] as int + 0x100 * b[at + 1] as int + 0x1_0000 * b[at + 2] as int
            + 0x100_0000 * b[at + 3] as int + 0x1_0000_0000 * b[at + 4] as int + 0x100_0000_0000
            * b[at + 5] as int + 0x1_0000_0000_0000 * b[at + 6] as int + 0x100_0000_0000_0000
            * b[at + 7] as int,
{
    let (b0, b1, b2, b3, b4, b5, b6, b7) = (b[at], b[at + 1], b[at + 2], b[at + 3], b[at + 4], b[at + 5],
    b[at + 6], b[at + 7]);
    assert(((b0 as u64) | ((b1 as u64) << 8u64) | ((b2 as u64) << 16u64) | ((b3 as u64) << 24u64) | ((
    b4 as u64) << 32u64) | ((b5 as u64) << 40u64) | ((b6 as u64) << 48u64) | ((b7 as u64) << 56u64))
        == b0 as u64 + 0x100u64 * (b1 as u64) + 0x1_0000u64 * (b2 as u64) + 0x100_0000u64 * (b3 as u64)
        + 0x1_0000_0000u64 * (b4 as u64) + 0x100_0000_0000u64 * (b5 as u64) + 0x1_0000_0000_0000u64 * (
    b6 as u64) + 0x100_0000_0000_0000u64 * (b7 as u64)) by (bit_vector);
}

/// Reading back written little-endian bytes gives the value.
pub proof fn lemma_le_value_of_bytes(x: u64)
    ensures
        le_value(le_bytes(x), 0) == x,
{
    let b = le_bytes(x);
    let (b0, b1, b2, b3, b4, b5, b6, b7) = (b[0], b[1], b[2], b[3], b[4], b[5], b[6], b[7]);
    assert(((b0 as u64) | ((b1 as u64) << 8u64) | ((b2 as u64) << 16u64) | ((b3 as u64) << 24u64) | ((
    b4 as u64) << 32u64) | ((b5 as u64) << 40u64) | ((b6 as u64) << 48u64) | ((b7 as u64) << 56u64))
        == x) by (bit_vector)
        requires
            b0 == x as u8,
            b1 == (x >> 8u64) as u8,
            b2 == (x >> 16u64) as u8,
            b3 == (x >> 24u64) as u8,
            b4 == (x >> 32u64) as u8,
            b5 == (x >> 40u64) as u8,
            b6 == (x >> 48u64) as u8,
            b7 == (x >> 56u64) as u8,
    ;
}

/// Writing a read value gives back the eight bytes it was read from.
pub proof fn lemma_le_bytes_of_value(b: Seq<u8>, at: int)
    requires
        0 <= at,
        at + 8 <= b.len(),
    ensures
        le_bytes(le_value(b, at)) == b.subrange(at, at + 8),
{
    let (b0, b1, b2, b3, b4, b5, b6, b7) = (b[at], b[at + 1], b[at + 2], b[at + 3], b[at + 4], b[at + 5],
    b[at + 6], b[at + 7]);
    let x = le_value(b, at);
    assert(x as u8 == b0 && (x >> 8u64) as u8 == b1 && (x >> 16u64) as u8 == b2 && (x >> 24u64) as u8
        == b3 && (x >> 32u64) as u8 == b4 && (x >> 40u64) as u8 == b5 && (x >> 48u64) as u8 == b6 && (x
        >> 56u64) as u8 == b7) by (bit_vector)
        requires
            x == (b0 as u64) | ((b1 as u64) << 8u64) | ((b2 as u64) << 16u64) | ((b3 as u64) << 24u64)
                | ((b4 as u64) << 32u64) | ((b5 as u64) << 40u64) | ((b6 as u64) << 48u64) | ((
            b7 as u64) << 56u64),
    ;
    assert(le_bytes(x) =~= b.subrange(at, at + 8));
}

/// Appends the little-endian bytes of `x`.
fn push_le(out: &mut Vec<u8>, x: u64)
    ensures
        final(out)@ == old(out)@ + le_bytes(x),
{
    out.push(x as u8);
    out.push((x >> 8u64) as u8);
    out.push((x >> 16u64) as u8);
    out.push((x >> 24u64) as u8);
    out.push((x >> 32u64) as u8);
    out.push((x >> 40u64) as u8);
    out.push((x >> 48u64) as u8);
    out.push((x >> 56u64) as u8);
    assert(out@ =~= old(out)@ + le_bytes(x));
}

/// Reads the little-endian `u64` at `at`.
fn read_le(data: &[u8], at: usize) -> (r: u64)
    requires
        at + 8 <= data@.len(),
    ensures
        r == le_value(data@, at as int),
{
    (data[at] as u64) | ((data[at + 1] as u64) << 8u64) | ((data[at + 2] as u64) << 16u64) | ((data[at
        + 3] as u64) << 24u64) | ((data[at + 4] as u64) << 32u64) | ((data[at + 5] as u64) << 40u64) | ((
    data[at + 6] as u64) << 48u64) | ((data[at + 7] as u64) << 56u64)
}

/// Appends the bytes of an address.
fn push_address(out: &mut Vec<u8>, a: &Address)
    ensures
        final(out)@ == old(out)@ + a@,
{
    let mut i: usize = 0;
    while i < 32
        invariant
            i <= 32,
            a@.len() == 32,
            out@ == old(out)@ + a@.subrange(0, i as int),
        decreases 32 - i,
    {
        out.push(a.bytes[i]);
        i = i + 1;
        assert(out@ =~= old(out)@ + a@.subrange(0, i as int));
    }
    assert(a@.subrange(0, 32) =~= a@);
}

/// Reads the address whose bytes start at `at`.
fn read_address(data: &[u8], at: usize) -> (r: Address)
    requires
        at + 32 <= data@.len(),
    ensures
        r@ == data@.subrange(at as int, at + 32),
{
    let mut bytes: [u8; 32] = [0u8; 32];
    let mut i: usize = 0;
    while i < 32
        invariant
            i <= 32,
            at + 32 <= data@.len(),
            data@.len() == data.len(),
            bytes@.len() == 32,
            forall|j: int| 0 <= j < i ==> bytes@[j] == data@[at + j],
        decreases 32 - i,
    {
        bytes[i] = data[at + i];
        i = i + 1;
    }
    let r = Address { bytes };
    assert(r@ =~= data@.subrange(at as int, at + 32));
    r
}

/// Why account data could not be loaded.
#[derive(Clone, Copy, Debug, PartialEq, Eq)]
pub enum AccountError {
    /// The account is owned by another program.
    AccountOwnedByWrongProgram,
    /// The data is shorter than a type tag.
    AccountDiscriminatorNotFound,
    /// The type tag is not the expected one.
    AccountDiscriminatorMismatch,
    /// The data after the tag is too short for the fields.
    AccountDidNotDeserialize,
}

/// The type tag of oracle state accounts: the first eight bytes of the SHA-256
/// of `account:OracleState`.
pub open spec fn oracle_discriminator() -> Seq<u8> {
    spec_sha256(ascii_bytes("account:OracleState"@)).take(8)
}

/// The type tag of minter configuration accounts: the first eight bytes of the
/// SHA-256 of `account:MinterConfig`.
pub open spec fn minter_discriminator() -> Seq<u8> {
    spec_sha256(ascii_bytes("account:MinterConfig"@)).take(8)
}

/// The first eight bytes of the SHA-256 of an ASCII text.
fn tag_of(name: &str) -> (r: Vec<u8>)
    requires
        name.is_ascii(),
    ensures
        r@ == spec_sha256(ascii_bytes(name@)).take(8),
        r@.len() == 8,
{
    let preimage = seed_bytes(name);
    let digest = sha256(preimage.as_slice());
    let mut r: Vec<u8> = Vec::new();
    let mut i: usize = 0;
    while i < 8
        invariant
            i <= 8,
            digest@.len() == 32,
            r@ == digest@.take(i as int),
        decreases 8 - i,
    {
        r.push(digest[i]);
        i = i + 1;
        assert(r@ =~= digest@.take(i as int));
    }
    r
}

/// The type tag of oracle state accounts.
pub fn oracle_state_discriminator() -> (r: Vec<u8>)
    ensures
        r@ == oracle_discriminator(),
        r@.len() == 8,
{
    proof {
        reveal_strlit("account:OracleState");
    }
    tag_of("account:OracleState")
}

/// The type tag of minter configuration accounts.
pub fn minter_config_discriminator() -> (r: Vec<u8>)
    ensures
        r@ == minter_discriminator(),
        r@.len() == 8,
{
    proof {
        reveal_strlit("account:MinterConfig");
    }
    tag_of("account:MinterConfig")
}

/// The fields of an oracle state, in account order.
pub open spec fn oracle_fields(s: OracleState) -> Seq<u8> {
    s.admin@ + le_bytes(s.price) + seq![s.decimals] + le_bytes(s.last_updated_slot) + seq![s.bump]
}

/// The fields of a minter configuration, in account order.
pub open spec fn minter_fields(c: MinterConfig) -> Seq<u8> {
    c.admin@ + c.treasury@ + le_bytes(c.mint_fee_usd) + c.oracle_program@ + c.oracle_state@ + seq![c.bump]
}

/// Account data of an oracle state: tag, then fields.
pub fn encode_oracle_state(s: &OracleState) -> (r: Vec<u8>)
    ensures
        r@ == oracle_discriminator() + oracle_fields(*s),
        r@.len() == DISCRIMINATOR_SIZE + crate::oracle::ORACLE_STATE_SIZE,
        r@.take(8) == oracle_discriminator(),
        r@.subrange(8, 40) == s.admin@,
        r@.subrange(40, 48) == le_bytes(s.price),
        r@[48] == s.decimals,
        r@.subrange(49, 57) == le_bytes(s.last_updated_slot),
        r@[57] == s.bump,
{
    let mut out = oracle_state_discriminator();
    push_address(&mut out, &s.admin);
    push_le(&mut out, s.price);
    out.push(s.decimals);
    push_le(&mut out, s.last_updated_slot);
    out.push(s.bump);
    assert(out@ =~= oracle_discriminator() + oracle_fields(*s));
    assert(out@.take(8) =~= oracle_discriminator());
    assert(out@.subrange(8, 40) =~= s.admin@);
    assert(out@.subrange(40, 48) =~= le_bytes(s.price));
    assert(out@.subrange(49, 57) =~= le_bytes(s.last_updated_slot));
    out
}

/// Account data of a minter configuration: tag, then fields.
pub fn encode_minter_config(c: &MinterConfig) -> (r: Vec<u8>)
    ensures
        r@ == minter_discriminator() + minter_fields(*c),
        r@.len() == DISCRIMINATOR_SIZE + crate::minter::MINTER_CONFIG_SIZE,
        r@.take(8) == minter_discriminator(),
        r@.subrange(8, 40) == c.admin@,
        r@.subrange(40, 72) == c.treasury@,
        r@.subrange(72, 80) == le_bytes(c.mint_fee_usd),
        r@.subrange(80, 112) == c.oracle_program@,
        r@.subrange(112, 144) == c.oracle_state@,
        r@[144] == c.bump,
{
    let mut out = minter_config_discriminator();
    push_address(&mut out, &c.admin);
    push_address(&mut out, &c.treasury);
    push_le(&mut out, c.mint_fee_usd);
    push_address(&mut out, &c.oracle_program);
    push_address(&mut out, &c.oracle_state);
    out.push(c.bump);
    assert(out@ =~= minter_discriminator() + minter_fields(*c));
    assert(out@.take(8) =~= minter_discriminator());
    assert(out@.subrange(8, 40) =~= c.admin@);
    assert(out@.subrange(40, 72) =~= c.treasury@);
    assert(out@.subrange(72, 80) =~= le_bytes(c.mint_fee_usd));
    assert(out@.subrange(80, 112) =~= c.oracle_program@);
    assert(out@.subrange(112, 144) =~= c.oracle_state@);
    out
}

/// Whether the tag and field bytes at the start of `d` hold an oracle state.
pub open spec fn oracle_decodes(d: Seq<u8>) -> bool {
    d.len() >= DISCRIMINATOR_SIZE + crate::oracle::ORACLE_STATE_SIZE
        && d.take(8) == oracle_discriminator()
}

/// Whether the tag and field bytes at the start of `d` hold a minter configuration.
pub open spec fn minter_decodes(d: Seq<u8>) -> bool {
    d.len() >= DISCRIMINATOR_SIZE + crate::minter::MINTER_CONFIG_SIZE
        && d.take(8) == minter_discriminator()
}

/// The error of loading account data that does not decode, given its expected tag.
pub open spec fn decode_error(d: Seq<u8>, tag: Seq<u8>) -> AccountError {
    if d.len() < DISCRIMINATOR_SIZE {
        AccountError::AccountDiscriminatorNotFound
    } else if d.take(8) != tag {
        AccountError::AccountDiscriminatorMismatch
    } else {
        AccountError::AccountDidNotDeserialize
    }
}

/// Compares the first eight bytes of `data` with a tag.
fn tag_matches(data: &[u8], tag: &Vec<u8>) -> (r: bool)
    requires
        data@.len() >= 8,
        tag@.len() == 8,
    ensures
        r == (data@.take(8) == tag@),
{
    let mut i: usize = 0;
    while i < 8
        invariant
            i <= 8,
            data@.len() >= 8,
            tag@.len() == 8,
            forall|j: int| 0 <= j < i ==> data@[j] == tag@[j],
        decreases 8 - i,
    {
        if data[i] != tag[i] {
            assert(data@.take(8)[i as int] != tag@[i as int]);
            return false;
        }
        i = i + 1;
    }
    assert(data@.take(8) =~= tag@);
    true
}

/// Loads an oracle state from account data: the tag must match and the fields
/// follow it; bytes after the fields are ignored.
pub fn decode_oracle_state(data: &[u8]) -> (r: Result<OracleState, AccountError>)
    ensures
        oracle_decodes(data@) ==> r is Ok,
        !oracle_decodes(data@) ==> r == Err::<OracleState, AccountError>(
            decode_error(data@, oracle_discriminator()),
        ),
        r matches Ok(s) ==> oracle_fields(s) == data@.subrange(8, 58),
        r matches Ok(s) ==> {
            &&& s.admin@ == data@.subrange(8, 40)
            &&& s.price == le_value(data@, 40)
            &&& s.decimals == data@[48]
            &&& s.last_updated_slot == le_value(data@, 49)
            &&& s.bump == data@[57]
        },
{
    if data.len() < DISCRIMINATOR_SIZE {
        return Err(AccountError::AccountDiscriminatorNotFound);
    }
    let tag = oracle_state_discriminator();
    if !tag_matches(data, &tag) {
        return Err(AccountError::AccountDiscriminatorMismatch);
    }
    if data.len() < DISCRIMINATOR_SIZE + crate::oracle::ORACLE_STATE_SIZE {
        return Err(AccountError::AccountDidNotDeserialize);
    }
    let admin = read_address(data, 8);
    let price = read_le(data, 40);
    let decimals = data[48];
    let last_updated_slot = read_le(data, 49);
    let bump = data[57];
    let s = OracleState { admin, price, decimals, last_updated_slot, bump };
    proof {
        lemma_le_bytes_of_value(data@, 40);
        lemma_le_bytes_of_value(data@, 49);
        assert(oracle_fields(s) =~= data@.subrange(8, 58));
    }
    Ok(s)
}

/// Loads a minter configuration from account data: the tag must match and the
/// fields follow it; bytes after the fields are ignored.
pub fn decode_minter_config(data: &[u8]) -> (r: Result<MinterConfig, AccountError>)
    ensures
        minter_decodes(data@) ==> r is Ok,
        !minter_decodes(data@) ==> r == Err::<MinterConfig, AccountError>(
            decode_error(data@, minter_discriminator()),
        ),
        r matches Ok(c) ==> minter_fields(c) == data@.subrange(8, 145),
        r matches Ok(c) ==> {
            &&& c.admin@ == data@.subrange(8, 40)
            &&& c.treasury@ == data@.subrange(40, 72)
            &&& c.mint_fee_usd == le_value(data@, 72)
            &&& c.oracle_program@ == data@.subrange(80, 112)
            &&& c.oracle_state@ == data@.subrange(112, 144)
            &&& c.bump == data@[144]
        },
{
    if data.len() < DISCRIMINATOR_SIZE {
        return Err(AccountError::AccountDiscriminatorNotFound);
    }
    let tag = minter_config_discriminator();
    if !tag_matches(data, &tag) {
        return Err(AccountError::AccountDiscriminatorMismatch);
    }
    if data.len() < DISCRIMINATOR_SIZE + crate::minter::MINTER_CONFIG_SIZE {
        return Err(AccountError::AccountDidNotDeserialize);
    }
    let admin = read_address(data, 8);
    let treasury = read_address(data, 40);
    let mint_fee_usd = read_le(data, 72);
    let oracle_program = read_address(data, 80);
    let oracle_state = read_address(data, 112);
    let bump = data[144];
    let c = MinterConfig { admin, treasury, mint_fee_usd, oracle_program, oracle_state, bump };
    proof {
        lemma_le_bytes_of_value(data@, 72);
        assert(minter_fields(c) =~= data@.subrange(8, 145));
    }
    Ok(c)
}

/// Loads an oracle state account: it must be owned by the program, and its
/// data must decode.
pub fn load_oracle_state(data: &[u8], owner: &Address, program_id: &Address) -> (r: Result<OracleState, AccountError>)
    ensures
        owner@ != program_id@ ==> r == Err::<OracleState, AccountError>(AccountError::AccountOwnedByWrongProgram),
        owner@ == program_id@ && oracle_decodes(data@) ==> r is Ok,
        owner@ == program_id@ && !oracle_decodes(data@) ==> r == Err::<OracleState, AccountError>(
            decode_error(data@, oracle_discriminator()),
        ),
        r matches Ok(s) ==> oracle_fields(s) == data@.subrange(8, 58),
{
    if !owner.same_as(program_id) {
        return Err(AccountError::AccountOwnedByWrongProgram);
    }
    decode_oracle_state(data)
}

/// Loads a minter configuration account: it must be owned by the program, and
/// its data must decode.
pub fn load_minter_config(data: &[u8], owner: &Address, program_id: &Address) -> (r: Result<MinterConfig, AccountError>)
    ensures
        owner@ != program_id@ ==> r == Err::<MinterConfig, AccountError>(AccountError::AccountOwnedByWrongProgram),
        owner@ == program_id@ && minter_decodes(data@) ==> r is Ok,
        owner@ == program_id@ && !minter_decodes(data@) ==> r == Err::<MinterConfig, AccountError>(
            decode_error(data@, minter_discriminator()),
        ),
        r matches Ok(c) ==> minter_fields(c) == data@.subrange(8, 145),
{
    if !owner.same_as(program_id) {
        return Err(AccountError::AccountOwnedByWrongProgram);
    }
    decode_minter_config(data)
}

/// The oracle state account layout, field by field in declaration order: after
/// the 8-byte tag, the admin at bytes 8..40, the price (little-endian) at
/// 40..48, the decimals at 48, the update slot at 49..57 and the bump at 57.
pub proof fn lemma_oracle_layout(s: OracleState, tag: Seq<u8>)
    requires
        tag.len() == DISCRIMINATOR_SIZE,
    ensures
        ({
            let d = tag + oracle_fields(s);
            &&& d.len() == 58
            &&& d.subrange(8, 40) == s.admin@
            &&& d.subrange(40, 48) == le_bytes(s.price)
            &&& d[48] == s.decimals
            &&& d.subrange(49, 57) == le_bytes(s.last_updated_slot)
            &&& d[57] == s.bump
        }),
{
    let d = tag + oracle_fields(s);
    assert(d.subrange(8, 40) =~= s.admin@);
    assert(d.subrange(40, 48) =~= le_bytes(s.price));
    assert(d.subrange(49, 57) =~= le_bytes(s.last_updated_slot));
}

/// The minter configuration account layout, field by field in declaration
/// order: after the 8-byte tag, the admin at 8..40, the treasury at 40..72,
/// the fee (little-endian) at 72..80, the oracle program at 80..112, the
/// oracle state at 112..144 and the bump at 144.
pub proof fn lemma_minter_layout(c: MinterConfig, tag: Seq<u8>)
    requires
        tag.len() == DISCRIMINATOR_SIZE,
    ensures
        ({
            let d = tag + minter_fields(c);
            &&& d.len() == 145
            &&& d.subrange(8, 40) == c.admin@
            &&& d.subrange(40, 72) == c.treasury@
            &&& d.subrange(72, 80) == le_bytes(c.mint_fee_usd)
            &&& d.subrange(80, 112) == c.oracle_program@
            &&& d.subrange(112, 144) == c.oracle_state@
            &&& d[144] == c.bump
        }),
{
    let d = tag + minter_fields(c);
    assert(d.subrange(8, 40) =~= c.admin@);
    assert(d.subrange(40, 72) =~= c.treasury@);
    assert(d.subrange(72, 80) =~= le_bytes(c.mint_fee_usd));
    assert(d.subrange(80, 112) =~= c.oracle_program@);
    assert(d.subrange(112, 144) =~= c.oracle_state@);
}

/// Why account data fails to load, in order: too short for a tag, then a
/// wrong tag, then too short for the fields.
pub proof fn lemma_decode_error_order(d: Seq<u8>, tag: Seq<u8>)
    ensures
        d.len() < 8 ==> decode_error(d, tag) == AccountError::AccountDiscriminatorNotFound,
        d.len() >= 8 && d.take(8) != tag ==> decode_error(d, tag) == AccountError::AccountDiscriminatorMismatch,
        d.len() >= 8 && d.take(8) == tag ==> decode_error(d, tag) == AccountError::AccountDidNotDeserialize,
{
}

/// Two addresses with the same bytes are the same address.
pub proof fn lemma_address_ext(a: Address, b: Address)
    requires
        a@ == b@,
    ensures
        a == b,
{
    assert(a.bytes =~= b.bytes);
}

/// Two values with the same little-endian bytes are equal.
proof fn lemma_le_bytes_injective(x: u64, y: u64)
    requires
        le_bytes(x) == le_bytes(y),
    ensures
        x == y,
{
    lemma_le_value_of_bytes(x);
    lemma_le_value_of_bytes(y);
}

/// The field bytes of an oracle state determine it.
pub proof fn lemma_oracle_fields_injective(a: OracleState, b: OracleState)
    requires
        oracle_fields(a) == oracle_fields(b),
    ensures
        a == b,
{
    let fa = oracle_fields(a);
    let fb = oracle_fields(b);
    assert(a.admin@ =~= fa.subrange(0, 32));
    assert(b.admin@ =~= fb.subrange(0, 32));
    lemma_address_ext(a.admin, b.admin);
    assert(le_bytes(a.price) =~= fa.subrange(32, 40));
    assert(le_bytes(b.price) =~= fb.subrange(32, 40));
    lemma_le_bytes_injective(a.price, b.price);
    assert(fa[40] == a.decimals && fb[40] == b.decimals);
    assert(le_bytes(a.last_updated_slot) =~= fa.subrange(41, 49));
    assert(le_bytes(b.last_updated_slot) =~= fb.subrange(41, 49));
    lemma_le_bytes_injective(a.last_updated_slot, b.last_updated_slot);
    assert(fa[49] == a.bump && fb[49] == b.bump);
}

/// The field bytes of a minter configuration determine it.
pub proof fn lemma_minter_fields_injective(a: MinterConfig, b: MinterConfig)
    requires
        minter_fields(a) == minter_fields(b),
    ensures
        a == b,
{
    let fa = minter_fields(a);
    let fb = minter_fields(b);
    assert(a.admin@ =~= fa.subrange(0, 32));
    assert(b.admin@ =~= fb.subrange(0, 32));
    lemma_address_ext(a.admin, b.admin);
    assert(a.treasury@ =~= fa.subrange(32, 64));
    assert(b.treasury@ =~= fb.subrange(32, 64));
    lemma_address_ext(a.treasury, b.treasury);
    assert(le_bytes(a.mint_fee_usd) =~= fa.subrange(64, 72));
    assert(le_bytes(b.mint_fee_usd) =~= fb.subrange(64, 72));
    lemma_le_bytes_injective(a.mint_fee_usd, b.mint_fee_usd);
    assert(a.oracle_program@ =~= fa.subrange(72, 104));
    assert(b.oracle_program@ =~= fb.subrange(72, 104));
    lemma_address_ext(a.oracle_program, b.oracle_program);
    assert(a.oracle_state@ =~= fa.subrange(104, 136));
    assert(b.oracle_state@ =~= fb.subrange(104, 136));
    lemma_address_ext(a.oracle_state, b.oracle_state);
    assert(fa[136] == a.bump && fb[136] == b.bump);
}

/// Loading what was stored gives back the stored oracle state.
pub proof fn lemma_oracle_state_roundtrip(s: OracleState, d: Seq<u8>, t: OracleState)
    requires
        d == oracle_discriminator() + oracle_fields(s),
        d.len() == DISCRIMINATOR_SIZE + crate::oracle::ORACLE_STATE_SIZE,
        oracle_fields(t) == d.subrange(8, 58),
    ensures
        oracle_decodes(d),
        t == s,
{
    assert(d.take(8) =~= oracle_discriminator());
    assert(d.subrange(8, 58) =~= oracle_fields(s));
    lemma_oracle_fields_injective(t, s);
}

/// Storing what was loaded gives back the loaded bytes (up to the end of the fields).
pub proof fn lemma_oracle_state_restore(d: Seq<u8>, s: OracleState)
    requires
        oracle_decodes(d),
        oracle_fields(s) == d.subrange(8, 58),
    ensures
        oracle_discriminator() + oracle_fields(s) == d.take(58),
{
    assert(oracle_discriminator() + oracle_fields(s) =~= d.take(58));
}

/// Loading what was stored gives back the stored minter configuration.
pub proof fn lemma_minter_config_roundtrip(c: MinterConfig, d: Seq<u8>, t: MinterConfig)
    requires
        d == minter_discriminator() + minter_fields(c),
        d.len() == DISCRIMINATOR_SIZE + crate::minter::MINTER_CONFIG_SIZE,
        minter_fields(t) == d.subrange(8, 145),
    ensures
        minter_decodes(d),
        t == c,
{
    assert(d.take(8) =~= minter_discriminator());
    assert(d.subrange(8, 145) =~= minter_fields(c));
    lemma_minter_fields_injective(t, c);
}

/// Storing what was loaded gives back the loaded bytes (up to the end of the fields).
pub proof fn lemma_minter_config_restore(d: Seq<u8>, c: MinterConfig)
    requires
        minter_decodes(d),
        minter_fields(c) == d.subrange(8, 145),
    ensures
        minter_discriminator() + minter_fields(c) == d.take(145),
{
    assert(minter_discriminator() + minter_fields(c) =~= d.take(145));
}

} // verus!
