//! The download engine: where the blocks of a file are kept while they come
//! in, which of them are accepted, and in what order they are put together.
//!
//! Every block is written to a file of its own, named by a prefix that is
//! unique to the download and by the block's sequence number. A block is
//! accepted only if its bytes have the checksum on its record. When all
//! blocks are in, their files are put together in the order of the sequence
//! numbers, read as numbers, and the result must have the checksum on the
//! file's record.

use vstd::prelude::*;
use vstd::slice::slice_subrange;
use vstd::string::{StringExecFns, StringSliceAdditionalSpecFns};
use vstd::utf8::{encode_utf8, is_ascii_chars_encode_utf8};
use crate::biz::GetBlockResp;
use crate::checksum::{checksum_matches, crc32_of, verify_checksum};
use crate::error::{Error, Operation};
use crate::text::{
    decimal, is_digit, lemma_decimal_bytes, lemma_encode_utf8_add, lemma_parse_decimal, parse_u32,
    parsed_u32, push_signed_decimal, signed_decimal,
};

verus! {

/// The byte that stands before the sequence number in the name of a block's
/// file.
pub const NAME_SEPARATOR: u8 = 0x5f;

/// The characters of a UUID in its usual form: lower-case hexadecimal digits
/// and hyphens.
pub open spec fn is_uuid_char(c: char) -> bool {
    ('0' <= c <= '9') || ('a' <= c <= 'f') || c == '-'
}

/// The shape of the random part of a prefix: 36 characters of a UUID.
pub open spec fn is_suffix(suffix: Seq<char>) -> bool {
    suffix.len() == 36 && forall|i: int| 0 <= i < suffix.len() ==> is_uuid_char(#[trigger] suffix[i])
}

/// The prefix of a download of `file_id` with the random part `suffix`.
pub open spec fn prefix_text(file_id: int, suffix: Seq<char>) -> Seq<char> {
    signed_decimal(file_id) + "_"@ + suffix
}

/// The name of the file that keeps the block numbered `sequence`.
pub open spec fn block_file_text(prefix: Seq<char>, sequence: int) -> Seq<char> {
    prefix + "_"@ + signed_decimal(sequence)
}

/// The path of the file `name` in the directory `dir`.
pub open spec fn path_text(dir: Seq<char>, name: Seq<char>) -> Seq<char> {
    dir + "/"@ + name
}

/// What stands behind the last `_` of a name; the whole name if it has none.
pub open spec fn last_part(name: Seq<u8>) -> Seq<u8>
    decreases name.len(),
{
    if name.len() == 0 || name.last() == NAME_SEPARATOR {
        Seq::empty()
    } else {
        last_part(name.drop_last()).push(name.last())
    }
}

/// The number by which a block's file is ordered: what stands behind the last
/// `_` of its name, read as a number; the largest number if that is none.
pub open spec fn sequence_number(name: Seq<u8>) -> u32 {
    match parsed_u32(last_part(name)) {
        Some(number) => number,
        None => u32::MAX,
    }
}

/// The number by which a block's file is ordered, from the name as text.
pub open spec fn sequence_of(name: Seq<char>) -> u32 {
    sequence_number(encode_utf8(name))
}

/// `last_part` is what stands behind the last separator.
pub proof fn lemma_last_part(name: Seq<u8>, start: int)
    requires
        0 <= start <= name.len(),
        forall|i: int| start <= i < name.len() ==> #[trigger] name[i] != NAME_SEPARATOR,
        start > 0 ==> name[start - 1] == NAME_SEPARATOR,
    ensures
        last_part(name) == name.skip(start),
    decreases name.len() - start,
{
    if start == name.len() {
        assert(name.skip(start) =~= Seq::<u8>::empty());
    } else {
        let front = name.drop_last();
        assert forall|i: int| start <= i < front.len() implies #[trigger] front[i]
            != NAME_SEPARATOR by {
            assert(front[i] == name[i]);
        }
        lemma_last_part(front, start);
        assert(front.skip(start).push(name.last()) =~= name.skip(start));
    }
}

/// A name that ends in `_` and the decimal text of a number is ordered by
/// that number, whatever stands before.
pub proof fn lemma_sequence_of_numbered(head: Seq<char>, sequence: nat)
    requires
        sequence <= u32::MAX,
    ensures
        sequence_of(head + "_"@ + decimal(sequence)) == sequence,
{
    reveal_strlit("_");
    let mark = "_"@;
    let digits = encode_utf8(decimal(sequence));
    let name = encode_utf8(head + mark + decimal(sequence));
    let start = encode_utf8(head).len() + 1;
    lemma_encode_utf8_add(head + mark, decimal(sequence));
    lemma_encode_utf8_add(head, mark);
    assert(encode_utf8(mark) =~= seq![NAME_SEPARATOR]) by {
        is_ascii_chars_encode_utf8(mark);
    }
    assert(name =~= encode_utf8(head) + seq![NAME_SEPARATOR] + digits);
    lemma_decimal_bytes(sequence);
    assert forall|i: int| start <= i < name.len() implies #[trigger] name[i] != NAME_SEPARATOR by {
        assert(name[i] == digits[i - start]);
        assert(is_digit(digits[i - start]));
    }
    assert(name[start - 1] == NAME_SEPARATOR);
    lemma_last_part(name, start as int);
    assert(name.skip(start as int) =~= digits);
    lemma_parse_decimal(sequence);
}

/// The file that keeps the block numbered `sequence` is ordered by that
/// number, by its name and by its path alike.
pub proof fn lemma_block_file_sequence(dir: Seq<char>, prefix: Seq<char>, sequence: nat)
    requires
        sequence <= u32::MAX,
    ensures
        sequence_of(block_file_text(prefix, sequence as int)) == sequence,
        sequence_of(path_text(dir, block_file_text(prefix, sequence as int))) == sequence,
{
    lemma_sequence_of_numbered(prefix, sequence);
    lemma_sequence_of_numbered(dir + "/"@ + prefix, sequence);
    assert(path_text(dir, block_file_text(prefix, sequence as int)) =~= dir + "/"@ + prefix + "_"@
        + decimal(sequence));
}

/// Calls `uuid::Uuid::new_v4` and writes the UUID as `Display` does.
///
/// Trusted: whatever UUID is drawn, its text is 36 lower-case hexadecimal
/// digits and hyphens. Which one is drawn is not stated: two calls differ.
#[verifier::external_body]
fn random_suffix() -> (suffix: String)
    ensures
        is_suffix(suffix@),
{
    uuid::Uuid::new_v4().to_string()
}

/// The prefix of a download of `file_id` with a given random part.
pub fn make_prefix_with(file_id: i32, suffix: &str) -> (prefix: String)
    ensures
        prefix@ == prefix_text(file_id as int, suffix@),
{
    let mut prefix = String::new();
    push_signed_decimal(&mut prefix, file_id as i64);
    prefix.append("_");
    prefix.append(suffix);
    assert(prefix@ =~= prefix_text(file_id as int, suffix@));
    prefix
}

/// A fresh prefix for a download of `file_id`: the file's id and a random
/// part, so that two downloads of one file do not share names.
pub fn make_prefix(file_id: i32) -> (prefix: String)
    ensures
        exists|suffix: Seq<char>|
            is_suffix(suffix) && prefix@ == #[trigger] prefix_text(file_id as int, suffix),
{
    let suffix = random_suffix();
    make_prefix_with(file_id, suffix.as_str())
}

/// The name of the file that keeps the block numbered `sequence`.
pub fn block_file_name(prefix: &str, sequence: i64) -> (name: String)
    ensures
        name@ == block_file_text(prefix@, sequence as int),
{
    let mut name = String::from_str(prefix);
    name.append("_");
    push_signed_decimal(&mut name, sequence);
    assert(name@ =~= block_file_text(prefix@, sequence as int));
    name
}

/// The path of the file `name` in the directory `dir`.
pub fn join_path(dir: &str, name: &str) -> (path: String)
    ensures
        path@ == path_text(dir@, name@),
{
    let mut path = String::from_str(dir);
    path.append("/");
    path.append(name);
    path
}

/// A block that was accepted: where to write it, and its bytes.
#[derive(Debug)]
pub struct BlockFile {
    pub path: String,
    pub data: Vec<u8>,
}

/// Judges what one attempt to fetch a block brought.
///
/// A block is accepted if it came and its bytes have the checksum on its
/// record; it is then to be written under its sequence number. A block that
/// did not come, or whose bytes disagree with its record, is not accepted:
/// the attempt has failed and the unit may try again.
pub fn accept_block(fetched: Option<GetBlockResp>, prefix: &str, target_path: &str) -> (accepted:
    Result<BlockFile, Error>)
    ensures
        match fetched {
            Some(resp) => if crc32_of(resp.block_data@) == resp.block_info.block_checksum {
                accepted matches Ok(file) && file.data == resp.block_data && file.path@
                    == path_text(
                    target_path@,
                    block_file_text(prefix@, resp.block_info.block_id as int),
                )
            } else {
                accepted matches Err(e) && e == (Error::ChecksumMismatch {
                    expected: resp.block_info.block_checksum,
                    actual: crc32_of(resp.block_data@),
                })
            },
            None => accepted matches Err(e) && e == Error::Remote(Operation::GetBlock),
        },
{
    match fetched {
        None => Err(Error::Remote(Operation::GetBlock)),
        Some(resp) => {
            match verify_checksum(resp.block_data.as_slice(), resp.block_info.block_checksum) {
                Err(e) => Err(e),
                Ok(()) => {
                    let name = block_file_name(prefix, resp.block_info.block_id);
                    let path = join_path(target_path, name.as_str());
                    Ok(BlockFile { path, data: resp.block_data })
                },
            }
        },
    }
}

/// The number by which a block's file is ordered.
pub fn sequence_key(file: &str) -> (key: u32)
    ensures
        key == sequence_of(file@),
{
    let name = file.as_bytes();
    let mut start: usize = name.len();
    while start > 0 && name[start - 1] != NAME_SEPARATOR
        invariant
            start <= name@.len(),
            forall|i: int| start <= i < name@.len() ==> #[trigger] name@[i] != NAME_SEPARATOR,
        decreases start,
    {
        start -= 1;
    }
    proof {
        lemma_last_part(name@, start as int);
    }
    let part = slice_subrange(name, start, name.len());
    assert(part@ =~= name@.skip(start as int));
    match parse_u32(part) {
        Some(number) => number,
        None => u32::MAX,
    }
}

/// One entry of the directory that a download writes to.
#[derive(Debug)]
pub struct DirEntry {
    pub file_name: String,
    pub path: String,
    pub is_file: bool,
}

/// Whether an entry is a file whose name starts with `prefix`.
pub open spec fn is_block_file(entry: DirEntry, prefix: Seq<char>) -> bool {
    entry.is_file && encode_utf8(prefix).is_prefix_of(encode_utf8(entry.file_name@))
}

/// The paths of the entries that are files of the download with `prefix`, in
/// the order of the entries.
pub open spec fn block_files(entries: Seq<DirEntry>, prefix: Seq<char>) -> Seq<String>
    decreases entries.len(),
{
    if entries.len() == 0 {
        Seq::empty()
    } else if is_block_file(entries.last(), prefix) {
        block_files(entries.drop_last(), prefix).push(entries.last().path)
    } else {
        block_files(entries.drop_last(), prefix)
    }
}

/// The files are in the order of their sequence numbers.
pub open spec fn ordered(files: Seq<String>) -> bool {
    forall|i: int, j: int|
        0 <= i <= j < files.len() ==> sequence_of(#[trigger] files[i]@) <= sequence_of(
            #[trigger] files[j]@,
        )
}

/// The files with the sequence number `key`, in the order they stand in.
pub open spec fn with_key(files: Seq<String>, key: u32) -> Seq<String>
    decreases files.len(),
{
    if files.len() == 0 {
        Seq::empty()
    } else if sequence_of(files.last()@) == key {
        with_key(files.drop_last(), key).push(files.last())
    } else {
        with_key(files.drop_last(), key)
    }
}

/// `sorted` holds the files of `files`, each as often as it stands there, in
/// the order of their sequence numbers, files of one number in the order they
/// had.
pub open spec fn is_sorted_of(sorted: Seq<String>, files: Seq<String>) -> bool {
    &&& sorted.len() == files.len()
    &&& ordered(sorted)
    &&& forall|key: u32| #[trigger] with_key(sorted, key) == with_key(files, key)
}

/// The files of one number in two runs of files are those of the first run,
/// then those of the second.
pub proof fn lemma_with_key_add(a: Seq<String>, b: Seq<String>, key: u32)
    ensures
        with_key(a + b, key) == with_key(a, key) + with_key(b, key),
    decreases b.len(),
{
    if b.len() == 0 {
        assert(a + b =~= a);
        assert(with_key(a, key) + with_key(b, key) =~= with_key(a, key));
    } else {
        assert((a + b).drop_last() =~= a + b.drop_last());
        assert((a + b).last() == b.last());
        lemma_with_key_add(a, b.drop_last(), key);
        if sequence_of(b.last()@) == key {
            assert((with_key(a, key) + with_key(b.drop_last(), key)).push(b.last()) =~= with_key(
                a,
                key,
            ) + with_key(b.drop_last(), key).push(b.last()));
        }
    }
}

/// A run without a file of the number holds no file of the number.
pub proof fn lemma_with_key_none(files: Seq<String>, key: u32)
    requires
        forall|i: int| 0 <= i < files.len() ==> sequence_of(#[trigger] files[i]@) != key,
    ensures
        with_key(files, key) == Seq::<String>::empty(),
    decreases files.len(),
{
    if files.len() > 0 {
        let front = files.drop_last();
        assert forall|i: int| 0 <= i < front.len() implies sequence_of(#[trigger] front[i]@)
            != key by {
            assert(front[i] == files[i]);
        }
        lemma_with_key_none(front, key);
        assert(sequence_of(files[files.len() - 1]@) != key);
    }
}

/// The one file of a run of one.
pub proof fn lemma_with_key_one(file: String, key: u32)
    ensures
        with_key(seq![file], key) == if sequence_of(file@) == key {
            seq![file]
        } else {
            Seq::<String>::empty()
        },
{
    let one = seq![file];
    assert(one.drop_last() =~= Seq::<String>::empty());
    assert(with_key(one.drop_last(), key) =~= Seq::<String>::empty());
    assert(one.last() == file);
    if sequence_of(file@) == key {
        assert(Seq::<String>::empty().push(file) =~= seq![file]);
    }
}

/// Putting a file into an ordered run, behind the files of smaller numbers
/// and before all others, keeps the run ordered and puts the file first among
/// those of its number.
proof fn lemma_insert_sorted(sorted: Seq<String>, at: int, file: String, rest: Seq<String>)
    requires
        ordered(sorted),
        0 <= at <= sorted.len(),
        forall|i: int| 0 <= i < at ==> sequence_of(#[trigger] sorted[i]@) < sequence_of(file@),
        at < sorted.len() ==> sequence_of(file@) <= sequence_of(sorted[at]@),
        forall|key: u32| #[trigger] with_key(sorted, key) == with_key(rest, key),
    ensures
        ordered(sorted.insert(at, file)),
        forall|key: u32|
            #[trigger] with_key(sorted.insert(at, file), key) == with_key(seq![file] + rest, key),
{
    let front = sorted.subrange(0, at);
    let back = sorted.subrange(at, sorted.len() as int);
    let grown = sorted.insert(at, file);
    assert(sorted =~= front + back);
    assert(grown =~= front + seq![file] + back);
    assert forall|i: int, j: int| 0 <= i <= j < grown.len() implies sequence_of(
        #[trigger] grown[i]@,
    ) <= sequence_of(#[trigger] grown[j]@) by {
        if j > at {
            assert(grown[j] == sorted[j - 1]);
            assert(sequence_of(sorted[at]@) <= sequence_of(sorted[j - 1]@));
        }
        if i > at {
            assert(grown[i] == sorted[i - 1]);
        }
        if i < at {
            assert(grown[i] == sorted[i]);
        }
        if j < at {
            assert(grown[j] == sorted[j]);
        }
    }
    assert forall|key: u32| #[trigger]
        with_key(grown, key) == with_key(seq![file] + rest, key) by {
        lemma_with_key_add(front, back, key);
        lemma_with_key_add(front + seq![file], back, key);
        lemma_with_key_add(front, seq![file], key);
        lemma_with_key_add(seq![file], rest, key);
        lemma_with_key_one(file, key);
        assert(with_key(sorted, key) == with_key(rest, key));
        if sequence_of(file@) == key {
            assert forall|i: int| 0 <= i < front.len() implies sequence_of(#[trigger] front[i]@)
                != key by {
                assert(front[i] == sorted[i]);
            }
            lemma_with_key_none(front, key);
            assert(with_key(front, key) + seq![file] + with_key(back, key) =~= seq![file] + (
            with_key(front, key) + with_key(back, key)));
        } else {
            assert(with_key(front, key) + Seq::<String>::empty() + with_key(back, key)
                =~= Seq::<String>::empty() + (with_key(front, key) + with_key(back, key)));
        }
    }
}

/// Whether `name` starts with `prefix`.
pub fn has_prefix(name: &str, prefix: &str) -> (starts: bool)
    ensures
        starts == prefix.spec_bytes().is_prefix_of(name.spec_bytes()),
{
    let whole = name.as_bytes();
    let head = prefix.as_bytes();
    if head.len() > whole.len() {
        return false;
    }
    let mut i: usize = 0;
    while i < head.len()
        invariant
            whole@ == name.spec_bytes(),
            head@ == prefix.spec_bytes(),
            i <= head@.len() <= whole@.len(),
            forall|k: int| 0 <= k < i ==> #[trigger] head@[k] == whole@[k],
        decreases head@.len() - i,
    {
        if head[i] != whole[i] {
            assert(whole@.subrange(0, head@.len() as int)[i as int] != head@[i as int]);
            return false;
        }
        i += 1;
    }
    assert(whole@.subrange(0, head@.len() as int) =~= head@);
    true
}

/// The paths of the files of the download with `prefix` among the entries of
/// a directory, in the order of the entries.
pub fn select_block_files(entries: &Vec<DirEntry>, prefix: &str) -> (files: Vec<String>)
    ensures
        files@ == block_files(entries@, prefix@),
{
    let mut files: Vec<String> = Vec::new();
    let mut i: usize = 0;
    while i < entries.len()
        invariant
            i <= entries@.len(),
            files@ == block_files(entries@.take(i as int), prefix@),
        decreases entries@.len() - i,
    {
        let entry = &entries[i];
        proof {
            let taken = entries@.take(i + 1);
            assert(taken.drop_last() =~= entries@.take(i as int));
            assert(taken.last() == *entry);
        }
        if entry.is_file && has_prefix(entry.file_name.as_str(), prefix) {
            files.push(entry.path.clone());
        }
        i += 1;
    }
    assert(entries@.take(i as int) =~= entries@);
    files
}

/// Puts files in the order of their sequence numbers. Files of one number
/// keep the order they came in.
pub fn sort_by_sequence(files: Vec<String>) -> (sorted: Vec<String>)
    ensures
        is_sorted_of(sorted@, files@),
{
    let mut rest = files;
    let mut sorted: Vec<String> = Vec::new();
    let mut keys: Vec<u32> = Vec::new();
    proof {
        assert(files@.skip(files@.len() as int) =~= Seq::<String>::empty());
    }
    while rest.len() > 0
        invariant
            rest@.len() <= files@.len(),
            rest@ == files@.take(rest@.len() as int),
            keys@.len() == sorted@.len(),
            sorted@.len() + rest@.len() == files@.len(),
            forall|i: int| 0 <= i < keys@.len() ==> #[trigger] keys@[i] == sequence_of(sorted@[i]@),
            ordered(sorted@),
            forall|key: u32| #[trigger]
                with_key(sorted@, key) == with_key(files@.skip(rest@.len() as int), key),
        decreases rest@.len(),
    {
        let ghost before = rest@;
        let ghost tail = files@.skip(rest@.len() as int);
        let file = rest.pop().unwrap();
        let key = sequence_key(file.as_str());
        let mut at: usize = 0;
        while at < keys.len() && keys[at] < key
            invariant
                at <= keys@.len(),
                forall|i: int| 0 <= i < at ==> #[trigger] keys@[i] < key,
            decreases keys@.len() - at,
        {
            at += 1;
        }
        proof {
            assert(file == files@[before.len() - 1]);
            assert(rest@ =~= files@.take(rest@.len() as int));
            assert(seq![file] + tail =~= files@.skip(rest@.len() as int));
            assert forall|i: int| 0 <= i < at implies sequence_of(#[trigger] sorted@[i]@)
                < sequence_of(file@) by {
                assert(keys@[i] < key);
            }
            if at < sorted@.len() {
                assert(keys@[at as int] == sequence_of(sorted@[at as int]@));
            }
            lemma_insert_sorted(sorted@, at as int, file, tail);
            assert forall|i: int| 0 <= i < keys@.len() + 1 implies #[trigger] keys@.insert(
                at as int,
                key,
            )[i] == sequence_of(sorted@.insert(at as int, file)[i]@) by {
                if i < at {
                    assert(keys@[i] == sequence_of(sorted@[i]@));
                } else if i > at {
                    assert(keys@[i - 1] == sequence_of(sorted@[i - 1]@));
                }
            }
        }
        sorted.insert(at, file);
        keys.insert(at, key);
    }
    proof {
        assert(files@.skip(0) =~= files@);
    }
    sorted
}

/// The files of the download with `prefix` among the entries of a directory,
/// in the order in which they are to be put together: by sequence number, read
/// as a number, so that block 10 comes after block 9.
pub fn search_files_by_prefix(entries: &Vec<DirEntry>, prefix: &str) -> (files: Vec<String>)
    ensures
        is_sorted_of(files@, block_files(entries@, prefix@)),
{
    sort_by_sequence(select_block_files(entries, prefix))
}

/// Holds the assembled file to its record: a checksum that disagrees means
/// that the file is corrupted, though every block passed its own check.
pub fn check_file(crc32: u32, file_checksum: u32) -> (result: Result<(), Error>)
    ensures
        result == if crc32 == file_checksum {
            Ok::<(), Error>(())
        } else {
            Err::<(), Error>(Error::CorruptedFile { expected: file_checksum, actual: crc32 })
        },
{
    if !checksum_matches(file_checksum, crc32) {
        return Err(Error::CorruptedFile { expected: file_checksum, actual: crc32 });
    }
    Ok(())
}

} // verus!
