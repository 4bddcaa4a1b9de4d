use vstd::arithmetic::power::pow;
use vstd::prelude::*;

verus! {

/// Length in bytes of the public modulus, and of every encrypted block.
pub const KEY_LENGTH: usize = 128;

/// Room a block leaves for data: the padding takes at least eleven bytes.
pub const CHUNK_LENGTH: usize = 117;

/// The public modulus, big-endian.
pub open spec fn modulus_bytes() -> Seq<u8> {
    seq![
        0x86, 0x86, 0x98, 0x0c, 0x0f, 0x5a, 0x24, 0xc4, 0xb9, 0xd4, 0x30, 0x20,
        0xcd, 0x2c, 0x22, 0x70, 0x3f, 0xf3, 0xf4, 0x50, 0x75, 0x65, 0x29, 0x05,
        0x8b, 0x1c, 0xf8, 0x8f, 0x09, 0xb8, 0x60, 0x21, 0x36, 0x47, 0x71, 0x98,
        0xa6, 0xe2, 0x68, 0x31, 0x49, 0x65, 0x9b, 0xd1, 0x22, 0xc3, 0x35, 0x92,
        0xfd, 0xb5, 0xad, 0x47, 0x94, 0x4a, 0xd1, 0xea, 0x4d, 0x36, 0xc6, 0xb1,
        0x72, 0xaa, 0xd6, 0x33, 0x8c, 0x3b, 0xb6, 0xac, 0x62, 0x27, 0x50, 0x2d,
        0x01, 0x09, 0x93, 0xac, 0x96, 0x7d, 0x1a, 0xef, 0x00, 0xf0, 0xc8, 0xe0,
        0x38, 0xde, 0x2e, 0x4d, 0x3b, 0xc2, 0xec, 0x36, 0x8a, 0xf2, 0xe9, 0xf1,
        0x0a, 0x6f, 0x1e, 0xda, 0x4f, 0x72, 0x62, 0xf1, 0x36, 0x42, 0x0c, 0x07,
        0xc3, 0x31, 0xb8, 0x71, 0xbf, 0x13, 0x9f, 0x74, 0xf3, 0x01, 0x0e, 0x3c,
        0x4f, 0xe5, 0x7d, 0xf3, 0xaf, 0xb7, 0x16, 0x83
    ]
}

/// The public exponent 0x10001, big-endian.
pub open spec fn exponent_bytes() -> Seq<u8> {
    seq![0x01u8, 0x00u8, 0x01u8]
}

/// The number a big-endian byte string stands for.
pub open spec fn be_value(s: Seq<u8>) -> nat
    decreases s.len(),
{
    if s.len() == 0 {
        0
    } else {
        be_value(s.drop_last()) * 256 + s.last() as nat
    }
}

/// The shortest big-endian byte string of `v`; zero is one zero byte.
pub open spec fn be_bytes(v: nat) -> Seq<u8>
    decreases v,
{
    if v < 256 {
        seq![v as u8]
    } else {
        be_bytes(v / 256).push((v % 256) as u8)
    }
}

/// `(base ^ exponent) % modulus`, all three read as big-endian numbers.
pub open spec fn mod_pow(base: Seq<u8>, exponent: Seq<u8>, modulus: Seq<u8>) -> Seq<u8> {
    be_bytes((pow(be_value(base) as int, be_value(exponent)) % (be_value(modulus) as int)) as nat)
}

/// The result of the public-key operation on one block.
pub open spec fn rsa_apply(block: Seq<u8>) -> Seq<u8> {
    mod_pow(block, exponent_bytes(), modulus_bytes())
}

/// Raises `base` to `exponent` modulo `modulus`, all big-endian, through
/// `num_bigint::BigUint::{from_bytes_be, modpow, to_bytes_be}`. Claimed: the
/// result is the shortest big-endian form of `(base ^ exponent) % modulus`,
/// which is what `modpow` returns and `to_bytes_be` writes (one zero byte for
/// zero). `modpow` panics on a zero modulus, which `requires` leaves out.
#[verifier::external_body]
fn mod_pow_be(base: &[u8], exponent: &[u8], modulus: &[u8]) -> (r: Vec<u8>)
    requires
        be_value(modulus@) > 0,
    ensures
        r@ == mod_pow(base@, exponent@, modulus@),
{
    let b = num_bigint::BigUint::from_bytes_be(base);
    let e = num_bigint::BigUint::from_bytes_be(exponent);
    let m = num_bigint::BigUint::from_bytes_be(modulus);
    b.modpow(&e, &m).to_bytes_be()
}

/// `n` bytes from the thread-local generator of `rand`, through
/// `rand::Rng::fill`. Only the length is claimed: the bytes are random.
#[verifier::external_body]
fn random_bytes(n: usize) -> (r: Vec<u8>)
    ensures
        r.len() == n,
{
    let mut v = vec![0u8; n];
    rand::Rng::fill(&mut rand::rng(), &mut v[..]);
    v
}

fn modulus() -> (r: Vec<u8>)
    ensures
        r@ == modulus_bytes(),
{
    vec![
        0x86, 0x86, 0x98, 0x0c, 0x0f, 0x5a, 0x24, 0xc4, 0xb9, 0xd4, 0x30, 0x20,
        0xcd, 0x2c, 0x22, 0x70, 0x3f, 0xf3, 0xf4, 0x50, 0x75, 0x65, 0x29, 0x05,
        0x8b, 0x1c, 0xf8, 0x8f, 0x09, 0xb8, 0x60, 0x21, 0x36, 0x47, 0x71, 0x98,
        0xa6, 0xe2, 0x68, 0x31, 0x49, 0x65, 0x9b, 0xd1, 0x22, 0xc3, 0x35, 0x92,
        0xfd, 0xb5, 0xad, 0x47, 0x94, 0x4a, 0xd1, 0xea, 0x4d, 0x36, 0xc6, 0xb1,
        0x72, 0xaa, 0xd6, 0x33, 0x8c, 0x3b, 0xb6, 0xac, 0x62, 0x27, 0x50, 0x2d,
        0x01, 0x09, 0x93, 0xac, 0x96, 0x7d, 0x1a, 0xef, 0x00, 0xf0, 0xc8, 0xe0,
        0x38, 0xde, 0x2e, 0x4d, 0x3b, 0xc2, 0xec, 0x36, 0x8a, 0xf2, 0xe9, 0xf1,
        0x0a, 0x6f, 0x1e, 0xda, 0x4f, 0x72, 0x62, 0xf1, 0x36, 0x42, 0x0c, 0x07,
        0xc3, 0x31, 0xb8, 0x71, 0xbf, 0x13, 0x9f, 0x74, 0xf3, 0x01, 0x0e, 0x3c,
        0x4f, 0xe5, 0x7d, 0xf3, 0xaf, 0xb7, 0x16, 0x83
    ]
}

fn exponent() -> (r: Vec<u8>)
    ensures
        r@ == exponent_bytes(),
{
    vec![0x01u8, 0x00u8, 0x01u8]
}

/// `s` cut into pieces of `size` bytes, the last one shorter if need be.
pub open spec fn chunks(s: Seq<u8>, size: nat) -> Seq<Seq<u8>>
    decreases s.len(),
{
    if s.len() == 0 || size == 0 {
        Seq::empty()
    } else if s.len() <= size {
        seq![s]
    } else {
        seq![s.take(size as int)] + chunks(s.skip(size as int), size)
    }
}

/// The message that is encrypted for one chunk: `0x00 0x02`, a padding made
/// of the random bytes mapped into `1..=255`, `0x00`, then the chunk.
pub open spec fn padded_message(chunk: Seq<u8>, random: Seq<u8>) -> Seq<u8> {
    seq![0x00u8, 0x02u8] + random.map_values(|b: u8| (b % 255 + 1) as u8) + seq![0x00u8] + chunk
}

/// `b` with zero bytes in front up to `n` bytes in all.
pub open spec fn zero_extend(b: Seq<u8>, n: nat) -> Seq<u8> {
    if b.len() < n {
        Seq::new((n - b.len()) as nat, |i: int| 0u8) + b
    } else {
        b
    }
}

/// The encrypted block of one chunk under the given random bytes.
pub open spec fn encrypt_block(chunk: Seq<u8>, random: Seq<u8>) -> Seq<u8> {
    zero_extend(rsa_apply(padded_message(chunk, random)), KEY_LENGTH as nat)
}

/// The encrypted blocks of `chunks`, one after another, each with its random bytes.
pub open spec fn encrypt_all(chunks: Seq<Seq<u8>>, randoms: Seq<Seq<u8>>) -> Seq<u8>
    decreases chunks.len(),
{
    if chunks.len() == 0 {
        Seq::empty()
    } else {
        encrypt_all(chunks.drop_last(), randoms.drop_last()) + encrypt_block(chunks.last(), randoms.last())
    }
}

/// Random bytes fit the chunks: one string per chunk, as long as its padding.
pub open spec fn randoms_fit(chunks: Seq<Seq<u8>>, randoms: Seq<Seq<u8>>) -> bool {
    &&& randoms.len() == chunks.len()
    &&& forall|i: int| 0 <= i < chunks.len() ==> #[trigger] randoms[i].len() + chunks[i].len() == KEY_LENGTH - 3
}

/// Where the data of a decrypted block starts: one past the first zero byte
/// after the first byte, or the start when there is none.
pub open spec fn data_start(d: Seq<u8>) -> int {
    let z = first_zero_from(d, 1);
    if z >= 0 {
        z + 1
    } else {
        0
    }
}

/// The first index from `i` on that holds a zero byte, or -1.
pub open spec fn first_zero_from(d: Seq<u8>, i: int) -> int
    decreases d.len() - i,
{
    if i < 0 || i >= d.len() {
        -1
    } else if d[i] == 0 {
        i
    } else {
        first_zero_from(d, i + 1)
    }
}

/// The data carried by a decrypted block.
pub open spec fn unpad(d: Seq<u8>) -> Seq<u8> {
    if data_start(d) < d.len() {
        d.skip(data_start(d))
    } else {
        Seq::empty()
    }
}

/// The data of the blocks, one after another.
pub open spec fn decrypt_all(blocks: Seq<Seq<u8>>) -> Seq<u8>
    decreases blocks.len(),
{
    if blocks.len() == 0 {
        Seq::empty()
    } else {
        decrypt_all(blocks.drop_last()) + unpad(rsa_apply(blocks.last()))
    }
}

proof fn lemma_chunks_step(s: Seq<u8>, pos: int, size: nat, n: int)
    requires
        0 <= pos < s.len(),
        size > 0,
        n == if s.len() - pos < size { s.len() - pos } else { size as int },
    ensures
        chunks(s.skip(pos), size) == seq![s.subrange(pos, pos + n)] + chunks(s.skip(pos + n), size),
{
    let rest = s.skip(pos);
    if rest.len() <= size {
        assert(rest =~= s.subrange(pos, pos + n));
        assert(s.skip(pos + n).len() == 0);
        assert(chunks(s.skip(pos + n), size) =~= Seq::<Seq<u8>>::empty());
        assert(chunks(rest, size) =~= seq![rest]);
    } else {
        assert(rest.take(size as int) =~= s.subrange(pos, pos + n));
        assert(rest.skip(size as int) =~= s.skip(pos + n));
    }
}

proof fn lemma_modulus_positive()
    ensures
        be_value(modulus_bytes()) > 0,
{
    let m = modulus_bytes();
    assert(m.len() == 128);
    assert(m.last() == 0x83u8);
}

/// Encrypts one chunk of at most `KEY_LENGTH - 11` bytes with the public key,
/// under the given random bytes, one for each byte of padding. The block is
/// `KEY_LENGTH` bytes wherever the result of the key operation is shorter.
pub fn rsa_encrypt_block(input: &[u8], random: &[u8]) -> (r: Vec<u8>)
    requires
        input.len() + random.len() == KEY_LENGTH - 3,
    ensures
        r@ == encrypt_block(input@, random@),
{
    let mut msg: Vec<u8> = Vec::new();
    msg.push(0x00);
    msg.push(0x02);
    let mut i: usize = 0;
    while i < random.len()
        invariant
            i <= random.len(),
            msg@ == seq![0x00u8, 0x02u8] + random@.take(i as int).map_values(|b: u8| (b % 255 + 1) as u8),
        decreases random.len() - i,
    {
        let b: u8 = random[i];
        msg.push(b % 0xff + 1);
        proof {
            assert(random@.take(i + 1) =~= random@.take(i as int).push(b));
            assert(random@.take(i + 1).map_values(|b: u8| (b % 255 + 1) as u8) =~= random@.take(i as int).map_values(|b: u8| (b % 255 + 1) as u8).push((b % 255 + 1) as u8));
        }
        i = i + 1;
    }
    proof { assert(random@.take(random@.len() as int) =~= random@); }
    msg.push(0x00);
    let mut j: usize = 0;
    let ghost head = msg@;
    while j < input.len()
        invariant
            j <= input.len(),
            msg@ == head + input@.take(j as int),
        decreases input.len() - j,
    {
        msg.push(input[j]);
        proof { assert(input@.take(j + 1) =~= input@.take(j as int).push(input@[j as int])); }
        j = j + 1;
    }
    proof {
        assert(input@.take(input@.len() as int) =~= input@);
        assert(msg@ =~= padded_message(input@, random@));
        lemma_modulus_positive();
    }
    let m = modulus();
    let e = exponent();
    let mut encrypted = mod_pow_be(&msg, &e, &m);
    let mut out: Vec<u8> = Vec::new();
    if encrypted.len() < KEY_LENGTH {
        let zeros = KEY_LENGTH - encrypted.len();
        let mut k: usize = 0;
        while k < zeros
            invariant
                k <= zeros,
                out@ == Seq::new(k as nat, |i: int| 0u8),
            decreases zeros - k,
        {
            out.push(0);
            proof { assert(out@ =~= Seq::new((k + 1) as nat, |i: int| 0u8)); }
            k = k + 1;
        }
    }
    let ghost enc = encrypted@;
    out.append(&mut encrypted);
    proof {
        if enc.len() < KEY_LENGTH {
            assert(out@ =~= zero_extend(enc, KEY_LENGTH as nat));
        } else {
            assert(out@ =~= zero_extend(enc, KEY_LENGTH as nat));
        }
    }
    out
}

/// Encrypts `input` with the public key, chunk by chunk: each chunk of at
/// most `KEY_LENGTH - 11` bytes becomes one block of `KEY_LENGTH` bytes,
/// padded with fresh random bytes.
pub fn rsa_encrypt(input: &[u8]) -> (r: Vec<u8>)
    ensures
        exists|randoms: Seq<Seq<u8>>|
            randoms_fit(chunks(input@, CHUNK_LENGTH as nat), randoms)
            && r@ == #[trigger] encrypt_all(chunks(input@, CHUNK_LENGTH as nat), randoms),
{
    let mut output: Vec<u8> = Vec::new();
    let mut pos: usize = 0;
    let ghost mut done: Seq<Seq<u8>> = Seq::empty();
    let ghost mut randoms: Seq<Seq<u8>> = Seq::empty();
    proof {
        assert(input@.skip(0) =~= input@);
        assert(done + chunks(input@, CHUNK_LENGTH as nat) =~= chunks(input@, CHUNK_LENGTH as nat));
    }
    while pos < input.len()
        invariant
            pos <= input.len(),
            chunks(input@, CHUNK_LENGTH as nat) == done + chunks(input@.skip(pos as int), CHUNK_LENGTH as nat),
            randoms_fit(done, randoms),
            output@ == encrypt_all(done, randoms),
        decreases input.len() - pos,
    {
        let slice_size: usize = if input.len() - pos < CHUNK_LENGTH { input.len() - pos } else { CHUNK_LENGTH };
        let slice = &input[pos..pos + slice_size];
        let random = random_bytes(KEY_LENGTH - slice_size - 3);
        let mut block = rsa_encrypt_block(slice, &random);
        proof {
            lemma_chunks_step(input@, pos as int, CHUNK_LENGTH as nat, slice_size as int);
            assert(done.push(slice@) + chunks(input@.skip(pos + slice_size), CHUNK_LENGTH as nat)
                =~= done + (seq![slice@] + chunks(input@.skip(pos + slice_size), CHUNK_LENGTH as nat)));
            assert(done.push(slice@).drop_last() =~= done);
            assert(randoms.push(random@).drop_last() =~= randoms);
            done = done.push(slice@);
            randoms = randoms.push(random@);
        }
        output.append(&mut block);
        pos = pos + slice_size;
    }
    proof {
        assert(input@.skip(pos as int).len() == 0);
        assert(chunks(input@.skip(pos as int), CHUNK_LENGTH as nat) =~= Seq::<Seq<u8>>::empty());
        assert(done + Seq::<Seq<u8>>::empty() =~= done);
        assert(output@ == encrypt_all(chunks(input@, CHUNK_LENGTH as nat), randoms));
    }
    output
}

/// Applies the public key to one block and keeps the data after its padding.
pub fn rsa_decrypt_block(input: &[u8]) -> (r: Vec<u8>)
    ensures
        r@ == unpad(rsa_apply(input@)),
{
    proof { lemma_modulus_positive(); }
    let m = modulus();
    let e = exponent();
    let decrypted = mod_pow_be(input, &e, &m);
    let mut start: usize = 0;
    let mut i: usize = 1;
    while i < decrypted.len() && start == 0
        invariant
            1 <= i,
            start == 0 ==> first_zero_from(decrypted@, 1) == first_zero_from(decrypted@, i as int),
            start != 0 ==> start == first_zero_from(decrypted@, 1) + 1 && start <= decrypted@.len(),
        decreases decrypted.len() - i,
    {
        if decrypted[i] == 0 {
            start = i + 1;
        }
        i = i + 1;
    }
    proof {
        if start == 0 {
            assert(first_zero_from(decrypted@, i as int) == -1);
        }
        assert(start == data_start(decrypted@));
    }
    let mut out: Vec<u8> = Vec::new();
    if start < decrypted.len() {
        let mut k: usize = start;
        while k < decrypted.len()
            invariant
                start <= k <= decrypted.len(),
                out@ == decrypted@.subrange(start as int, k as int),
            decreases decrypted.len() - k,
        {
            out.push(decrypted[k]);
            proof { assert(decrypted@.subrange(start as int, k + 1) =~= decrypted@.subrange(start as int, k as int).push(decrypted@[k as int])); }
            k = k + 1;
        }
        proof { assert(decrypted@.subrange(start as int, decrypted@.len() as int) =~= decrypted@.skip(start as int)); }
    }
    out
}

/// Applies the public key to `input` block by block, `KEY_LENGTH` bytes at a
/// time, and joins the data found after each block's padding.
pub fn rsa_decrypt(input: &[u8]) -> (r: Vec<u8>)
    ensures
        r@ == decrypt_all(chunks(input@, KEY_LENGTH as nat)),
{
    let mut output: Vec<u8> = Vec::new();
    let mut pos: usize = 0;
    let ghost mut done: Seq<Seq<u8>> = Seq::empty();
    proof {
        assert(input@.skip(0) =~= input@);
        assert(done + chunks(input@, KEY_LENGTH as nat) =~= chunks(input@, KEY_LENGTH as nat));
    }
    while pos < input.len()
        invariant
            pos <= input.len(),
            chunks(input@, KEY_LENGTH as nat) == done + chunks(input@.skip(pos as int), KEY_LENGTH as nat),
            output@ == decrypt_all(done),
        decreases input.len() - pos,
    {
        let slice_size: usize = if input.len() - pos < KEY_LENGTH { input.len() - pos } else { KEY_LENGTH };
        let slice = &input[pos..pos + slice_size];
        let mut data = rsa_decrypt_block(slice);
        proof {
            lemma_chunks_step(input@, pos as int, KEY_LENGTH as nat, slice_size as int);
            assert(done.push(slice@) + chunks(input@.skip(pos + slice_size), KEY_LENGTH as nat)
                =~= done + (seq![slice@] + chunks(input@.skip(pos + slice_size), KEY_LENGTH as nat)));
            assert(done.push(slice@).drop_last() =~= done);
            done = done.push(slice@);
        }
        output.append(&mut data);
        pos = pos + slice_size;
    }
    proof {
        assert(chunks(input@.skip(pos as int), KEY_LENGTH as nat) =~= Seq::<Seq<u8>>::empty());
        assert(done + Seq::<Seq<u8>>::empty() =~= done);
    }
    output
}

} // verus!
