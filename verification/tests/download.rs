use std::collections::BTreeMap;
use vault_client::biz::{
    get_block, get_block_ids, get_file_info, FileBlock, FileInfo, GetBlockIdsByFileIdResp,
    GetBlockResp,
};
use vault_client::download::{
    accept_block, block_file_name, check_file, has_prefix, join_path, make_prefix,
    make_prefix_with, search_files_by_prefix, select_block_files, sequence_key, sort_by_sequence,
    DirEntry,
};
use vault_client::error::Error;
use vault_client::job::{TransferJob, TransferKind};
use vault_client::req::Resp;

fn crc(data: &[u8]) -> u32 {
    crc_fast::checksum(crc_fast::CrcAlgorithm::Crc32IsoHdlc, data) as u32
}

fn block(id: i32, sequence: i64, data: &[u8]) -> GetBlockResp {
    GetBlockResp {
        block_info: FileBlock {
            id,
            file_id: 26,
            block_name: format!("block-{sequence}"),
            block_id: sequence,
            block_checksum: crc(data),
            block_size: data.len() as u32,
            created_at: chrono::NaiveDateTime::default(),
        },
        block_data: data.to_vec(),
    }
}

fn file(path: &str) -> DirEntry {
    let file_name = path.rsplit('/').next().unwrap().to_string();
    DirEntry { file_name, path: path.to_string(), is_file: true }
}

fn strings(names: &[&str]) -> Vec<String> {
    names.iter().map(|n| n.to_string()).collect()
}

#[test]
fn test_search_by_prefix() {
    let entries = vec![
        file("./download/26_aa_1"),
        file("./download/27_aa_0"),
        file("./download/26_aa_0"),
        file("./download/report.pdf"),
    ];
    let prefix = "26_";
    let rst = search_files_by_prefix(&entries, prefix);
    assert_eq!(rst, strings(&["./download/26_aa_0", "./download/26_aa_1"]));
    for strr in rst {
        println!("{}", strr)
    }
}

#[test]
fn a_prefix_is_the_file_id_and_a_random_part() {
    let prefix = make_prefix(26);
    assert!(prefix.starts_with("26_"));
    let suffix = &prefix[3..];
    assert_eq!(suffix.len(), 36);
    assert!(suffix.chars().all(|c| c == '-' || c.is_ascii_digit() || ('a'..='f').contains(&c)));
    assert_eq!(suffix.chars().filter(|c| *c == '-').count(), 4);
    assert_ne!(make_prefix(26), make_prefix(26));
    assert!(make_prefix(-3).starts_with("-3_"));
}

#[test]
fn a_prefix_with_a_given_random_part() {
    assert_eq!(make_prefix_with(26, "abc"), "26_abc");
    assert_eq!(make_prefix_with(0, ""), "0_");
    assert_eq!(make_prefix_with(-17, "x"), "-17_x");
    assert_eq!(make_prefix_with(i32::MAX, "x"), "2147483647_x");
    assert_eq!(make_prefix_with(i32::MIN, "x"), "-2147483648_x");
}

#[test]
fn block_files_are_named_by_prefix_and_sequence_number() {
    assert_eq!(block_file_name("26_abc", 0), "26_abc_0");
    assert_eq!(block_file_name("26_abc", 10), "26_abc_10");
    assert_eq!(block_file_name("26_abc", 4_294_967_295), "26_abc_4294967295");
    assert_eq!(block_file_name("26_abc", i64::MAX), "26_abc_9223372036854775807");
    assert_eq!(block_file_name("26_abc", -1), "26_abc_-1");
    assert_eq!(block_file_name("26_abc", i64::MIN), "26_abc_-9223372036854775808");
    assert_eq!(join_path("./download", "26_abc_3"), "./download/26_abc_3");
    assert_eq!(join_path("", "x"), "/x");
}

#[test]
fn the_sequence_key_is_the_number_behind_the_last_underscore() {
    assert_eq!(sequence_key("./download/26_abc_0"), 0);
    assert_eq!(sequence_key("./download/26_abc_10"), 10);
    assert_eq!(sequence_key("26_abc_007"), 7);
    assert_eq!(sequence_key("26_abc_+7"), 7);
    assert_eq!(sequence_key("26_abc_4294967295"), u32::MAX);
    assert_eq!(sequence_key("12"), 12);
}

#[test]
fn a_name_without_a_number_sorts_last() {
    assert_eq!(sequence_key("26_abc_"), u32::MAX);
    assert_eq!(sequence_key("26_abc_x"), u32::MAX);
    assert_eq!(sequence_key("26_abc_1x"), u32::MAX);
    assert_eq!(sequence_key("26_abc_-1"), u32::MAX);
    assert_eq!(sequence_key("26_abc_+"), u32::MAX);
    assert_eq!(sequence_key("26_abc_ 1"), u32::MAX);
    assert_eq!(sequence_key("26_abc_4294967296"), u32::MAX);
    assert_eq!(sequence_key("26_abc_99999999999999999999999"), u32::MAX);
    assert_eq!(sequence_key("26_abc_\u{661}"), u32::MAX);
    assert_eq!(sequence_key(""), u32::MAX);
    assert_eq!(sequence_key("report.pdf"), u32::MAX);
}

#[test]
fn the_name_of_a_block_file_gives_its_sequence_number_back() {
    let prefix = make_prefix(26);
    for sequence in [0i64, 1, 9, 10, 11, 99, 100, 65_535, 4_294_967_294] {
        let path = join_path("/tmp/down_load", &block_file_name(&prefix, sequence));
        assert_eq!(sequence_key(&path) as i64, sequence);
    }
}

#[test]
fn blocks_that_come_in_as_2_0_1_are_put_together_as_0_1_2() {
    let arrived = strings(&["d/26_x_2", "d/26_x_0", "d/26_x_1"]);
    assert_eq!(sort_by_sequence(arrived), strings(&["d/26_x_0", "d/26_x_1", "d/26_x_2"]));
}

#[test]
fn block_ten_comes_after_block_nine() {
    let arrived = strings(&["p_10", "p_9", "p_100", "p_1", "p_11", "p_2"]);
    assert_eq!(
        sort_by_sequence(arrived),
        strings(&["p_1", "p_2", "p_9", "p_10", "p_11", "p_100"])
    );
}

#[test]
fn files_of_one_number_keep_their_order() {
    let arrived = strings(&["b_1", "zz", "a_1", "c_0", "aa", "a_01"]);
    assert_eq!(sort_by_sequence(arrived), strings(&["c_0", "b_1", "a_1", "a_01", "zz", "aa"]));
    assert_eq!(sort_by_sequence(Vec::new()), Vec::<String>::new());
    assert_eq!(sort_by_sequence(strings(&["x_5"])), strings(&["x_5"]));
}

#[test]
fn only_files_with_the_prefix_are_selected() {
    let mut entries = vec![
        file("d/26_abc_1"),
        file("d/26_abd_0"),
        file("d/126_abc_0"),
        file("d/26_ab"),
        file("d/26_abc_0"),
        file("d/26_abc"),
    ];
    entries.push(DirEntry {
        file_name: "26_abc_2".to_string(),
        path: "d/26_abc_2".to_string(),
        is_file: false,
    });
    assert_eq!(
        select_block_files(&entries, "26_abc"),
        strings(&["d/26_abc_1", "d/26_abc_0", "d/26_abc"])
    );
    assert_eq!(
        search_files_by_prefix(&entries, "26_abc"),
        strings(&["d/26_abc_0", "d/26_abc_1", "d/26_abc"])
    );
    assert_eq!(search_files_by_prefix(&entries, "27_"), Vec::<String>::new());
    assert_eq!(select_block_files(&entries, "").len(), 6);
}

#[test]
fn has_prefix_compares_the_beginning() {
    assert!(has_prefix("26_abc_0", "26_"));
    assert!(has_prefix("26_abc_0", "26_abc_0"));
    assert!(has_prefix("26_abc_0", ""));
    assert!(has_prefix("", ""));
    assert!(!has_prefix("26_abc_0", "26_abc_01"));
    assert!(!has_prefix("26_abc_0", "27_"));
    assert!(!has_prefix("", "2"));
    assert!(has_prefix("\u{e9}t\u{e9}", "\u{e9}"));
    assert!(!has_prefix("\u{e9}t\u{e9}", "e"));
}

#[test]
fn a_block_with_the_right_checksum_is_accepted() {
    let accepted = accept_block(Some(block(101, 3, b"abc")), "26_x", "./download").unwrap();
    assert_eq!(accepted.path, "./download/26_x_3");
    assert_eq!(accepted.data, b"abc".to_vec());
}

#[test]
fn a_block_with_a_wrong_checksum_is_not_accepted() {
    let mut damaged = block(101, 3, b"abc");
    damaged.block_data = b"abd".to_vec();
    assert_eq!(
        accept_block(Some(damaged), "26_x", "./download").err(),
        Some(Error::ChecksumMismatch { expected: crc(b"abc"), actual: crc(b"abd") })
    );
    let mut mislabelled = block(101, 3, b"abc");
    mislabelled.block_info.block_checksum ^= 1;
    assert_eq!(
        accept_block(Some(mislabelled), "26_x", "./download").err(),
        Some(Error::ChecksumMismatch { expected: crc(b"abc") ^ 1, actual: crc(b"abc") })
    );
    assert_eq!(
        accept_block(None, "26_x", "./download").err(),
        Some(Error::Remote(vault_client::error::Operation::GetBlock))
    );
}

#[test]
fn the_assembled_file_is_held_to_its_record() {
    assert_eq!(check_file(0xcbf4_3926, 0xcbf4_3926), Ok(()));
    assert_eq!(check_file(0, 0), Ok(()));
    assert_eq!(
        check_file(1, 2),
        Err(Error::CorruptedFile { expected: 2, actual: 1 })
    );
    assert_eq!(
        check_file(crc(b"abcdefghij"), crc(b"abcdefghiJ")),
        Err(Error::CorruptedFile { expected: crc(b"abcdefghiJ"), actual: crc(b"abcdefghij") })
    );
}

/// A server that holds one file, and a directory in memory.
struct World {
    record: FileInfo,
    blocks: Vec<(i32, i64, Vec<u8>)>,
    fetches: Vec<i32>,
    disk: BTreeMap<String, Vec<u8>>,
}

impl World {
    fn new(name: &str, whole: &[u8], blocks: Vec<(i32, i64, Vec<u8>)>) -> World {
        World {
            record: FileInfo {
                id: 26,
                file_name: name.to_string(),
                file_size: whole.len() as i64,
                file_checksum: crc(whole),
                file_status: 1,
                created_at: chrono::NaiveDateTime::default(),
            },
            blocks,
            fetches: Vec::new(),
            disk: BTreeMap::new(),
        }
    }

    fn block_ids(&self) -> Result<Resp<GetBlockIdsByFileIdResp>, Error> {
        let block_ids = self.blocks.iter().map(|b| b.0).collect();
        Ok(Resp { success: true, block: None, content: Some(GetBlockIdsByFileIdResp { block_ids }) })
    }

    fn record(&self) -> Result<Resp<FileInfo>, Error> {
        let r = &self.record;
        let copy = FileInfo {
            id: r.id,
            file_name: r.file_name.clone(),
            file_size: r.file_size,
            file_checksum: r.file_checksum,
            file_status: r.file_status,
            created_at: r.created_at,
        };
        Ok(Resp { success: true, block: None, content: Some(copy) })
    }
}

/// Runs one download, the units taking turns attempt by attempt.
fn download(
    world: &mut World,
    prefix: &str,
    dir: &str,
    mut fetch: impl FnMut(&World, i32, usize) -> Result<Resp<GetBlockResp>, Error>,
) -> Result<(), Error> {
    let block_ids = get_block_ids(world.block_ids())?.block_ids;
    let mut job = TransferJob::new(TransferKind::Download);
    for _ in &block_ids {
        let unit = job.add_unit();
        assert!(job.enter(unit));
    }
    let mut round = 0;
    while !job.is_finished() {
        round += 1;
        for (unit, block_id) in block_ids.iter().enumerate() {
            if !job.begin_attempt(unit) {
                continue;
            }
            world.fetches.push(*block_id);
            let fetched = get_block(fetch(world, *block_id, round));
            let written = match accept_block(fetched, prefix, dir) {
                Ok(file) => {
                    world.disk.insert(file.path, file.data);
                    true
                }
                Err(_) => false,
            };
            job.end_attempt(unit, written);
        }
    }
    job.result()?;

    let record = get_file_info(world.record())?;
    let entries: Vec<DirEntry> = world
        .disk
        .keys()
        .map(|path| DirEntry {
            file_name: path.rsplit('/').next().unwrap().to_string(),
            path: path.clone(),
            is_file: true,
        })
        .collect();
    let parts = search_files_by_prefix(&entries, prefix);
    let mut whole = Vec::new();
    for part in &parts {
        whole.extend_from_slice(&world.disk[part]);
    }
    for part in &parts {
        world.disk.remove(part);
    }
    let target = join_path(dir, &record.file_name);
    let sum = crc(&whole);
    world.disk.insert(target, whole);
    check_file(sum, record.file_checksum)
}

fn serve(world: &World, block_id: i32) -> Result<Resp<GetBlockResp>, Error> {
    let found = world.blocks.iter().find(|b| b.0 == block_id).unwrap();
    Ok(Resp { success: true, block: None, content: Some(block(found.0, found.1, &found.2)) })
}

#[test]
fn a_download_of_two_blocks_succeeds_and_removes_its_temporaries() {
    let mut world = World::new(
        "report.txt",
        b"hello, world",
        vec![(101, 0, b"hello, ".to_vec()), (102, 1, b"world".to_vec())],
    );
    let result = download(&mut world, "26_x", "d", |w, id, _| serve(w, id));
    assert_eq!(result, Ok(()));
    assert_eq!(world.fetches, vec![101, 102]);
    assert_eq!(world.disk.len(), 1);
    assert_eq!(world.disk["d/report.txt"], b"hello, world".to_vec());
}

#[test]
fn a_download_fails_when_a_block_fails_three_times_and_keeps_the_other_block() {
    let mut world = World::new(
        "report.txt",
        b"hello, world",
        vec![(101, 0, b"hello, ".to_vec()), (102, 1, b"world".to_vec())],
    );
    let result = download(&mut world, "26_x", "d", |w, id, _| {
        if id == 101 {
            Ok(Resp { success: false, block: None, content: None })
        } else {
            serve(w, id)
        }
    });
    assert_eq!(result, Err(Error::DownloadFailed));
    assert_eq!(world.fetches, vec![101, 102, 101, 101]);
    assert_eq!(world.disk.len(), 1);
    assert_eq!(world.disk["d/26_x_1"], b"world".to_vec());
}

#[test]
fn a_block_whose_bytes_disagree_with_its_checksum_is_fetched_again() {
    let mut world = World::new(
        "report.txt",
        b"hello, world",
        vec![(101, 0, b"hello, ".to_vec()), (102, 1, b"world".to_vec())],
    );
    let result = download(&mut world, "26_x", "d", |w, id, round| {
        let mut answer = serve(w, id)?;
        if id == 102 && round < 3 {
            answer.content.as_mut().unwrap().block_data[0] ^= 0xff;
        }
        Ok(answer)
    });
    assert_eq!(result, Ok(()));
    assert_eq!(world.fetches, vec![101, 102, 102, 102]);
    assert_eq!(world.disk["d/report.txt"], b"hello, world".to_vec());
}

#[test]
fn a_block_that_never_agrees_with_its_checksum_fails_after_three_attempts() {
    let mut world = World::new("report.txt", b"hello", vec![(101, 0, b"hello".to_vec())]);
    let result = download(&mut world, "26_x", "d", |w, id, _| {
        let mut answer = serve(w, id)?;
        answer.content.as_mut().unwrap().block_data.push(0);
        Ok(answer)
    });
    assert_eq!(result, Err(Error::DownloadFailed));
    assert_eq!(world.fetches, vec![101, 101, 101]);
    assert!(world.disk.is_empty());
}

#[test]
fn blocks_are_put_together_by_sequence_number_not_by_arrival() {
    // The server lists the blocks as 2, 0, 1 and they arrive in that order.
    let mut world = World::new(
        "abc.txt",
        b"aaabbbccc",
        vec![(7, 2, b"ccc".to_vec()), (5, 0, b"aaa".to_vec()), (6, 1, b"bbb".to_vec())],
    );
    let result = download(&mut world, "26_x", "d", |w, id, _| serve(w, id));
    assert_eq!(result, Ok(()));
    assert_eq!(world.fetches, vec![7, 5, 6]);
    assert_eq!(world.disk["d/abc.txt"], b"aaabbbccc".to_vec());
}

#[test]
fn twelve_blocks_are_put_together_in_numeric_order() {
    let whole: Vec<u8> = (0..12u8).collect();
    let blocks = (0..12).rev().map(|i| (100 + i, i as i64, vec![i as u8])).collect();
    let mut world = World::new("n.bin", &whole, blocks);
    let result = download(&mut world, "26_x", "d", |w, id, _| serve(w, id));
    assert_eq!(result, Ok(()));
    assert_eq!(world.disk["d/n.bin"], whole);
}

#[test]
fn a_file_that_lost_a_block_is_corrupted_though_every_block_passed() {
    // The server's record is of three blocks, but it lists only two.
    let mut world = World::new(
        "abc.txt",
        b"aaabbbccc",
        vec![(5, 0, b"aaa".to_vec()), (7, 2, b"ccc".to_vec())],
    );
    let result = download(&mut world, "26_x", "d", |w, id, _| serve(w, id));
    assert_eq!(
        result,
        Err(Error::CorruptedFile { expected: crc(b"aaabbbccc"), actual: crc(b"aaaccc") })
    );
}

#[test]
fn a_download_without_a_block_list_is_a_remote_failure() {
    let refused = get_block_ids(Ok(Resp { success: false, block: None, content: None }));
    assert_eq!(
        refused.err(),
        Some(Error::Remote(vault_client::error::Operation::GetBlockIds))
    );
}
