//! Fingerprints of files and settings.
use vstd::prelude::*;

use crate::json;

verus! {

/// The SHA-256 digest of some bytes.
pub uninterp spec fn sha256(bytes: Seq<u8>) -> Seq<u8>;

/// `sha2::Sha256::digest`: the digest of the bytes, which has thirty-two bytes
/// and depends on them alone.
#[verifier::external_body]
fn digest_of(bytes: &[u8]) -> (res: Vec<u8>)
    ensures
        res@ == sha256(bytes@),
        res@.len() == 32,
{
    <sha2::Sha256 as sha2::Digest>::digest(bytes).to_vec()
}

/// Bytes written in hexadecimal, in lower case.
pub open spec fn hex_text(bytes: Seq<u8>) -> Seq<char>
    decreases bytes.len(),
{
    if bytes.len() == 0 {
        Seq::empty()
    } else {
        hex_text(bytes.drop_last()).push(json::hex_digit(bytes.last() as int / 16)).push(
            json::hex_digit(bytes.last() as int % 16),
        )
    }
}

fn hex_char(d: u8) -> (res: char)
    requires
        d < 16,
    ensures
        res == json::hex_digit(d as int),
{
    let code: u32 = if d < 10 {
        48 + d as u32
    } else {
        87 + d as u32
    };
    match char::from_u32(code) {
        Some(c) => c,
        None => '0',
    }
}

/// Writes bytes in hexadecimal.
pub fn hex_of(bytes: &Vec<u8>) -> (res: String)
    ensures
        res@ == hex_text(bytes@),
{
    let mut res = String::new();
    let mut i: usize = 0;
    while i < bytes.len()
        invariant
            i <= bytes@.len(),
            res@ == hex_text(bytes@.take(i as int)),
        decreases bytes@.len() - i,
    {
        let b: u8 = bytes[i];
        res.push(hex_char(b / 16));
        res.push(hex_char(b % 16));
        i += 1;
        assert(bytes@.take(i as int).drop_last() == bytes@.take(i - 1));
        assert(bytes@.take(i as int).last() == bytes@[i - 1]);
    }
    assert(bytes@.take(i as int) == bytes@);
    res
}

/// The fingerprint of some bytes.
pub open spec fn fingerprint(bytes: Seq<u8>) -> Seq<char> {
    hex_text(sha256(bytes))
}

/// The SHA-256 digest of some bytes, in hexadecimal.
pub fn sha256_hex(bytes: &[u8]) -> (res: String)
    ensures
        res@ == fingerprint(bytes@),
        res@.len() == 64,
{
    let digest = digest_of(bytes);
    proof {
        lemma_hex_length(digest@);
    }
    hex_of(&digest)
}

proof fn lemma_hex_length(bytes: Seq<u8>)
    ensures
        hex_text(bytes).len() == 2 * bytes.len(),
    decreases bytes.len(),
{
    if bytes.len() > 0 {
        lemma_hex_length(bytes.drop_last());
    }
}

proof fn lemma_hex_digits_differ(a: int, b: int)
    requires
        0 <= a < 16,
        0 <= b < 16,
        json::hex_digit(a) == json::hex_digit(b),
    ensures
        a == b,
{
    let x = if a < 10 {
        48 + a
    } else {
        87 + a
    };
    let y = if b < 10 {
        48 + b
    } else {
        87 + b
    };
    assert((x as char) as int == x);
    assert((y as char) as int == y);
}

/// Different bytes are written differently: equal fingerprints mean equal
/// digests.
pub proof fn law_hexadecimal_loses_nothing(a: Seq<u8>, b: Seq<u8>)
    requires
        hex_text(a) == hex_text(b),
    ensures
        a == b,
    decreases a.len(),
{
    lemma_hex_length(a);
    lemma_hex_length(b);
    if a.len() > 0 {
        let ha = hex_text(a);
        let hb = hex_text(b);
        let pa = hex_text(a.drop_last());
        let pb = hex_text(b.drop_last());
        lemma_hex_length(a.drop_last());
        lemma_hex_length(b.drop_last());
        assert(ha.drop_last().drop_last() == pa);
        assert(hb.drop_last().drop_last() == pb);
        law_hexadecimal_loses_nothing(a.drop_last(), b.drop_last());
        let n = ha.len();
        assert(ha[n - 1] == json::hex_digit(a.last() as int % 16));
        assert(hb[n - 1] == json::hex_digit(b.last() as int % 16));
        lemma_hex_digits_differ(a.last() as int % 16, b.last() as int % 16);
        assert(ha[n - 2] == json::hex_digit(a.last() as int / 16));
        assert(hb[n - 2] == json::hex_digit(b.last() as int / 16));
        lemma_hex_digits_differ(a.last() as int / 16, b.last() as int / 16);
        assert(a.last() == b.last());
        assert(a == a.drop_last().push(a.last()));
        assert(b == b.drop_last().push(b.last()));
    } else {
        assert(a == b);
    }
}

/// A number as bytes, the lowest first.
pub open spec fn le_bytes(n: nat, width: nat) -> Seq<u8>
    decreases width,
{
    if width == 0 {
        Seq::empty()
    } else {
        seq![(n % 256) as u8] + le_bytes(n / 256, (width - 1) as nat)
    }
}

/// Appends a number as bytes, the lowest first.
pub fn append_le(target: &mut Vec<u8>, n: u64, width: usize)
    ensures
        final(target)@ == old(target)@ + le_bytes(n as nat, width as nat),
{
    let ghost before = target@;
    let ghost whole = le_bytes(n as nat, width as nat);
    let mut rest: u64 = n;
    let mut left: usize = width;
    while left > 0
        invariant
            left <= width,
            whole == le_bytes(n as nat, width as nat),
            target@ + le_bytes(rest as nat, left as nat) == before + whole,
        decreases left,
    {
        let ghost earlier = target@;
        let low: u64 = rest % 256;
        target.push(low as u8);
        proof {
            assert(le_bytes(rest as nat, left as nat) == seq![(rest as nat % 256) as u8] + le_bytes(
                rest as nat / 256,
                (left - 1) as nat,
            ));
            assert(target@ + le_bytes(rest as nat / 256, (left - 1) as nat) == earlier + le_bytes(
                rest as nat,
                left as nat,
            ));
        }
        rest = rest / 256;
        left = left - 1;
    }
    assert(target@ + le_bytes(rest as nat, 0) == target@);
}

/// The bytes of a text.
pub open spec fn text_bytes(t: Seq<char>) -> Seq<u8> {
    vstd::utf8::encode_utf8(t)
}

/// Appends the bytes of a text.
pub fn append_text_bytes(target: &mut Vec<u8>, t: &str)
    ensures
        final(target)@ == old(target)@ + text_bytes(t@),
{
    let bytes = t.as_bytes();
    append_bytes(target, bytes);
}

/// Appends some bytes.
pub fn append_bytes(target: &mut Vec<u8>, bytes: &[u8])
    ensures
        final(target)@ == old(target)@ + bytes@,
{
    let ghost before = target@;
    let mut i: usize = 0;
    assert(before + bytes@.take(0) == before);
    while i < bytes.len()
        invariant
            i <= bytes@.len(),
            target@ == before + bytes@.take(i as int),
        decreases bytes@.len() - i,
    {
        target.push(bytes[i]);
        i += 1;
        assert(before + bytes@.take(i as int) == (before + bytes@.take(i - 1)).push(bytes@[i - 1]));
    }
    assert(bytes@.take(i as int) == bytes@);
}

/// Some bytes after their number.
pub open spec fn framed(bytes: Seq<u8>) -> Seq<u8> {
    le_bytes(bytes.len(), 8) + bytes
}

/// The fingerprint of the dependency lists: each after its length, so that
/// nothing can move from one list to the next unnoticed.
pub fn requirements_bundle_hash(plain: &[u8], cpu: &[u8], gpu: &[u8]) -> (res: String)
    ensures
        res@ == fingerprint(framed(plain@) + framed(cpu@) + framed(gpu@)),
{
    let mut bytes: Vec<u8> = Vec::new();
    append_le(&mut bytes, plain.len() as u64, 8);
    append_bytes(&mut bytes, plain);
    append_le(&mut bytes, cpu.len() as u64, 8);
    append_bytes(&mut bytes, cpu);
    append_le(&mut bytes, gpu.len() as u64, 8);
    append_bytes(&mut bytes, gpu);
    assert(bytes@ == framed(plain@) + framed(cpu@) + framed(gpu@));
    sha256_hex(bytes.as_slice())
}

/// The fingerprint of the scripts.
pub fn scripts_hash(asr_server: &[u8], vits2_server: &[u8]) -> (res: String)
    ensures
        res@ == fingerprint(asr_server@ + vits2_server@),
{
    let mut bytes: Vec<u8> = Vec::new();
    append_bytes(&mut bytes, asr_server);
    append_bytes(&mut bytes, vits2_server);
    assert(bytes@ == asr_server@ + vits2_server@);
    sha256_hex(bytes.as_slice())
}

/// What is known of a file of a model.
#[derive(Debug)]
pub struct ModelFile {
    pub relative_path: String,
    /// Size, and time of the last change, where they are known.
    pub stamp: Option<FileStamp>,
}

/// The size of a file and the time of its last change.
#[derive(Debug, Clone, Copy)]
pub struct FileStamp {
    pub size: u64,
    pub modified: Option<(u64, u32)>,
}

/// A model that is needed, with the files that show that it is there.
#[derive(Debug)]
pub struct RequiredModel {
    pub id: String,
    pub files: Vec<ModelFile>,
}

/// The bytes of a file in the fingerprint of the runtime.
pub open spec fn file_bytes(file: ModelFile) -> Seq<u8> {
    text_bytes(file.relative_path@) + match file.stamp {
        Some(stamp) => le_bytes(stamp.size as nat, 8) + match stamp.modified {
            Some(time) => le_bytes(time.0 as nat, 8) + le_bytes(time.1 as nat, 4),
            None => Seq::empty(),
        },
        None => Seq::new(16, |i: int| 0u8),
    }
}

/// The bytes of the first `n` files.
pub open spec fn files_bytes(files: Seq<ModelFile>, n: int) -> Seq<u8>
    decreases n,
{
    if n <= 0 {
        Seq::empty()
    } else {
        files_bytes(files, n - 1) + file_bytes(files[n - 1])
    }
}

/// The bytes of the first `n` models.
pub open spec fn models_bytes(models: Seq<RequiredModel>, n: int) -> Seq<u8>
    decreases n,
{
    if n <= 0 {
        Seq::empty()
    } else {
        models_bytes(models, n - 1) + text_bytes(models[n - 1].id@) + files_bytes(
            models[n - 1].files@,
            models[n - 1].files@.len() as int,
        )
    }
}

fn append_file(target: &mut Vec<u8>, file: &ModelFile)
    ensures
        final(target)@ == old(target)@ + file_bytes(*file),
{
    let ghost before = target@;
    append_text_bytes(target, file.relative_path.as_str());
    match &file.stamp {
        Some(stamp) => {
            append_le(target, stamp.size, 8);
            match stamp.modified {
                Some(time) => {
                    append_le(target, time.0, 8);
                    append_le(target, time.1 as u64, 4);
                },
                None => {},
            }
        },
        None => {
            let ghost start = target@;
            let mut i: usize = 0;
            while i < 16
                invariant
                    i <= 16,
                    target@ == start + Seq::new(i as nat, |k: int| 0u8),
                decreases 16 - i,
            {
                target.push(0);
                i += 1;
                assert(target@ == start + Seq::new(i as nat, |k: int| 0u8));
            }
        },
    }
    assert(target@ == before + file_bytes(*file));
}

/// The fingerprint that the results of the runtime probes belong to: the
/// dependencies, the scripts, the version of Python, the lock file, and the
/// sizes and times of the model files.
pub fn runtime_validation_fingerprint(
    requirements_hash: &str,
    bundle_hash: &str,
    scripts: &str,
    python_version: &str,
    lock_sha256: &str,
    models: &Vec<RequiredModel>,
) -> (res: String)
    ensures
        res@ == fingerprint(
            text_bytes(requirements_hash@) + text_bytes(bundle_hash@) + text_bytes(scripts@)
                + text_bytes(python_version@) + text_bytes(lock_sha256@) + models_bytes(
                models@,
                models@.len() as int,
            ),
        ),
{
    let mut bytes: Vec<u8> = Vec::new();
    append_text_bytes(&mut bytes, requirements_hash);
    append_text_bytes(&mut bytes, bundle_hash);
    append_text_bytes(&mut bytes, scripts);
    append_text_bytes(&mut bytes, python_version);
    append_text_bytes(&mut bytes, lock_sha256);
    let ghost head = text_bytes(requirements_hash@) + text_bytes(bundle_hash@) + text_bytes(
        scripts@,
    ) + text_bytes(python_version@) + text_bytes(lock_sha256@);
    assert(bytes@ == head);
    let mut m: usize = 0;
    assert(bytes@ == head + models_bytes(models@, 0));
    while m < models.len()
        invariant
            m <= models@.len(),
            bytes@ == head + models_bytes(models@, m as int),
        decreases models@.len() - m,
    {
        let ghost before = bytes@;
        append_text_bytes(&mut bytes, models[m].id.as_str());
        let ghost start = bytes@;
        let ghost files = models@[m as int].files@;
        let mut f: usize = 0;
        assert(bytes@ == start + files_bytes(files, 0));
        while f < models[m].files.len()
            invariant
                m < models@.len(),
                files == models@[m as int].files@,
                f <= files.len(),
                bytes@ == start + files_bytes(files, f as int),
            decreases files.len() - f,
        {
            append_file(&mut bytes, &models[m].files[f]);
            f += 1;
            assert(bytes@ == start + files_bytes(files, f as int));
        }
        m += 1;
        assert(bytes@ == head + models_bytes(models@, m as int));
    }
    sha256_hex(bytes.as_slice())
}

/// How many numbers some bytes can stand for.
pub open spec fn byte_range(width: nat) -> nat
    decreases width,
{
    if width == 0 {
        1
    } else {
        256 * byte_range((width - 1) as nat)
    }
}

/// The number that some bytes stand for, the least one first.
pub open spec fn le_value(bytes: Seq<u8>) -> nat
    decreases bytes.len(),
{
    if bytes.len() == 0 {
        0
    } else {
        bytes[0] as nat + 256 * le_value(bytes.drop_first())
    }
}

/// A number is read back from its bytes, the least one first, as long as they
/// can hold it.
pub proof fn law_bytes_are_read_back(n: nat, width: nat)
    ensures
        le_bytes(n, width).len() == width,
        n < byte_range(width) ==> le_value(le_bytes(n, width)) == n,
        width > 0 ==> le_bytes(n, width)[0] == n % 256,
    decreases width,
{
    if width > 0 {
        law_bytes_are_read_back(n / 256, (width - 1) as nat);
        let bytes = le_bytes(n, width);
        assert(bytes.drop_first() == le_bytes(n / 256, (width - 1) as nat));
        assert(bytes[0] == (n % 256) as u8);
        assert(n < byte_range(width) ==> n / 256 < byte_range((width - 1) as nat));
    }
}

proof fn lemma_eight_bytes()
    ensures
        byte_range(8) == 0x1_0000_0000_0000_0000,
{
    reveal_with_fuel(byte_range, 9);
}

/// Texts that are put one after the other, each behind its length, are told
/// apart: no text can end earlier or later than it does.
pub proof fn law_framed_bytes_are_told_apart(a: Seq<u8>, b: Seq<u8>, x: Seq<u8>, y: Seq<u8>)
    requires
        framed(a) + x == framed(b) + y,
        a.len() < 0x1_0000_0000_0000_0000,
        b.len() < 0x1_0000_0000_0000_0000,
    ensures
        a == b,
        x == y,
{
    lemma_eight_bytes();
    law_bytes_are_read_back(a.len(), 8);
    law_bytes_are_read_back(b.len(), 8);
    let left = framed(a) + x;
    let right = framed(b) + y;
    assert(left.take(8) == le_bytes(a.len(), 8));
    assert(right.take(8) == le_bytes(b.len(), 8));
    assert(left.subrange(8, 8 + a.len() as int) == a);
    assert(right.subrange(8, 8 + b.len() as int) == b);
    assert(left.skip(8 + a.len() as int) == x);
    assert(right.skip(8 + b.len() as int) == y);
}

/// A digest is written byte by byte, each with two digits of sixteen in lower
/// case, the greater one first.
pub proof fn law_bytes_have_two_digits(bytes: Seq<u8>, byte: u8)
    ensures
        hex_text(bytes.push(byte)).len() == hex_text(bytes).len() + 2,
        hex_text(bytes.push(byte)).take(hex_text(bytes).len() as int) == hex_text(bytes),
        ({
            let n = hex_text(bytes).len() as int;
            let high = byte as int / 16;
            let low = byte as int % 16;
            &&& hex_text(bytes.push(byte))[n] as int == if high < 10 {
                '0' as int + high
            } else {
                'a' as int + (high - 10)
            }
            &&& hex_text(bytes.push(byte))[n + 1] as int == if low < 10 {
                '0' as int + low
            } else {
                'a' as int + (low - 10)
            }
        }),
        hex_text(Seq::empty()) == Seq::<char>::empty(),
{
    assert(bytes.push(byte).drop_last() == bytes);
    assert(bytes.push(byte).last() == byte);
    assert(hex_text(bytes.push(byte)).take(hex_text(bytes).len() as int) == hex_text(bytes));
}

/// A file that changed, appeared or went away has other bytes in the
/// fingerprint than before, though its name is the same: its size and the time
/// of its last change can be read back from them.
pub proof fn law_changed_files_are_told_apart(before: ModelFile, after: ModelFile)
    requires
        before.relative_path@ == after.relative_path@,
        file_bytes(before) == file_bytes(after),
    ensures
        before.stamp is Some == after.stamp is Some,
        before.stamp is Some ==> before.stamp->0.size == after.stamp->0.size
            && before.stamp->0.modified == after.stamp->0.modified,
{
    let n = text_bytes(before.relative_path@).len() as int;
    lemma_eight_bytes();
    lemma_four_bytes();
    lemma_stamp_bytes(before);
    lemma_stamp_bytes(after);
    assert(file_bytes(before).skip(n) == file_bytes(after).skip(n));
    if before.stamp is Some && before.stamp->0.modified is Some {
        law_bytes_are_read_back((before.stamp->0.modified->0).0 as nat, 8);
        law_bytes_are_read_back((after.stamp->0.modified->0).0 as nat, 8);
        law_bytes_are_read_back((before.stamp->0.modified->0).1 as nat, 4);
        law_bytes_are_read_back((after.stamp->0.modified->0).1 as nat, 4);
    }
}

proof fn lemma_four_bytes()
    ensures
        byte_range(4) == 0x1_0000_0000,
{
    reveal_with_fuel(byte_range, 5);
}

proof fn lemma_stamp_bytes(file: ModelFile)
    ensures
        ({
            let bytes = file_bytes(file).skip(text_bytes(file.relative_path@).len() as int);
            match file.stamp {
                None => bytes.len() == 16,
                Some(stamp) => {
                    &&& le_value(bytes.take(8)) == stamp.size
                    &&& match stamp.modified {
                        None => bytes.len() == 8,
                        Some(time) => {
                            &&& bytes.len() == 20
                            &&& bytes.subrange(8, 16) == le_bytes(time.0 as nat, 8)
                            &&& bytes.skip(16) == le_bytes(time.1 as nat, 4)
                        },
                    }
                },
            }
        }),
{
    let name = text_bytes(file.relative_path@);
    let bytes = file_bytes(file).skip(name.len() as int);
    lemma_eight_bytes();
    if let Some(stamp) = file.stamp {
        law_bytes_are_read_back(stamp.size as nat, 8);
        if let Some(time) = stamp.modified {
            law_bytes_are_read_back(time.0 as nat, 8);
            law_bytes_are_read_back(time.1 as nat, 4);
            assert(bytes == le_bytes(stamp.size as nat, 8) + (le_bytes(time.0 as nat, 8) + le_bytes(
                time.1 as nat,
                4,
            )));
            assert(bytes.subrange(8, 16) == le_bytes(time.0 as nat, 8));
            assert(bytes.skip(16) == le_bytes(time.1 as nat, 4));
        } else {
            assert(bytes == le_bytes(stamp.size as nat, 8));
        }
        assert(bytes.take(8) == le_bytes(stamp.size as nat, 8));
    } else {
        assert(bytes == Seq::new(16, |i: int| 0u8));
    }
}

/// Every file of every model is part of the fingerprint: its bytes stand in
/// those of all, behind the bytes of the ones before it.
pub proof fn law_every_file_is_in_the_fingerprint(files: Seq<ModelFile>, i: int, n: int)
    requires
        0 <= i < n <= files.len(),
    ensures
        files_bytes(files, i).len() + file_bytes(files[i]).len() <= files_bytes(files, n).len(),
        files_bytes(files, n).subrange(
            files_bytes(files, i).len() as int,
            (files_bytes(files, i).len() + file_bytes(files[i]).len()) as int,
        ) == file_bytes(files[i]),
        files_bytes(files, 0).len() == 0,
    decreases n,
{
    let from = files_bytes(files, i).len() as int;
    let to = from + file_bytes(files[i]).len();
    let before = files_bytes(files, n - 1);
    assert(files_bytes(files, n) == before + file_bytes(files[n - 1]));
    if i < n - 1 {
        law_every_file_is_in_the_fingerprint(files, i, n - 1);
        assert(files_bytes(files, n).subrange(from, to) == before.subrange(from, to));
    } else {
        assert(files_bytes(files, n).subrange(from, to) == file_bytes(files[i]));
    }
}

/// Every model is part of the fingerprint, with its name and all its files.
pub proof fn law_every_model_is_in_the_fingerprint(models: Seq<RequiredModel>, i: int, n: int)
    requires
        0 <= i < n <= models.len(),
    ensures
        ({
            let all = models_bytes(models, n);
            let own = text_bytes(models[i].id@) + files_bytes(
                models[i].files@,
                models[i].files@.len() as int,
            );
            let from = models_bytes(models, i).len() as int;
            &&& from + own.len() <= all.len()
            &&& all.subrange(from, from + own.len()) == own
        }),
        models_bytes(models, 0).len() == 0,
    decreases n,
{
    let own = text_bytes(models[i].id@) + files_bytes(
        models[i].files@,
        models[i].files@.len() as int,
    );
    let from = models_bytes(models, i).len() as int;
    let to = from + own.len();
    let before = models_bytes(models, n - 1);
    let last = text_bytes(models[n - 1].id@) + files_bytes(
        models[n - 1].files@,
        models[n - 1].files@.len() as int,
    );
    assert(models_bytes(models, n) == before + last);
    if i < n - 1 {
        law_every_model_is_in_the_fingerprint(models, i, n - 1);
        assert(models_bytes(models, n).subrange(from, to) == before.subrange(from, to));
    } else {
        assert(models_bytes(models, n).subrange(from, to) == own);
    }
}

} // verus!
