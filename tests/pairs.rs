use limit_offset::for_page;
use limit_offset::get_limit_offset_pairs;
use limit_offset::validate_chunk_size;
use limit_offset::ChunkError;
use limit_offset::LimitOffsetPair;

#[test]
fn confirm_chunking() {
    let chnk_sz = 250;
    let limit = 1000;
    let chunks = get_limit_offset_pairs(chnk_sz, limit).unwrap();
    assert_eq!(chunks.len(), limit / chnk_sz);
    assert_eq!(chunks[1].offset, chunks[0].limit);
    let last = chunks.last().expect("Last");
    assert_eq!(last.limit, limit);
}

#[test]
fn finds_invalid_chunk_size() {
    let chnk_sz = 250;
    let limit = 1023;
    assert!(!validate_chunk_size(chnk_sz, limit))
}

#[test]
fn invalid_chunk_size_is_rejected() {
    let chnk_sz = 250;
    let limit = 1001;
    assert_eq!(
        get_limit_offset_pairs(chnk_sz, limit),
        Err(ChunkError::InvalidChunkSize)
    );
}

#[test]
fn page_one() {
    let p = 0;
    let p_size = 10;
    let res = for_page(p, p_size);
    assert_eq!(res.limit, p_size);
    assert_eq!(res.offset, 0);
}

#[test]
fn page_two() {
    let p = 1;
    let p_size = 10;
    let res = for_page(p, p_size);
    assert_eq!(res.limit, p_size * 2);
    assert_eq!(res.offset, p_size);
}

#[test]
fn chunking_gives_exact_pairs() {
    let chunks = get_limit_offset_pairs(250, 1000).unwrap();
    let expected = vec![
        LimitOffsetPair { limit: 250, offset: 0 },
        LimitOffsetPair { limit: 500, offset: 250 },
        LimitOffsetPair { limit: 750, offset: 500 },
        LimitOffsetPair { limit: 1000, offset: 750 },
    ];
    assert_eq!(chunks, expected);
}

#[test]
fn uneven_total_is_rejected() {
    assert_eq!(
        get_limit_offset_pairs(250, 1023),
        Err(ChunkError::InvalidChunkSize)
    );
}

#[test]
fn zero_chunk_size_is_rejected() {
    assert!(!validate_chunk_size(0, 10));
    assert!(!validate_chunk_size(0, 0));
    assert_eq!(get_limit_offset_pairs(0, 10), Err(ChunkError::InvalidChunkSize));
    assert_eq!(get_limit_offset_pairs(0, 0), Err(ChunkError::InvalidChunkSize));
}

#[test]
fn zero_total_gives_no_pairs() {
    assert!(validate_chunk_size(7, 0));
    assert_eq!(get_limit_offset_pairs(7, 0), Ok(vec![]));
}

#[test]
fn chunk_equal_to_total_gives_one_pair() {
    let chunks = get_limit_offset_pairs(1000, 1000).unwrap();
    assert_eq!(chunks, vec![LimitOffsetPair { limit: 1000, offset: 0 }]);
}

#[test]
fn pairs_are_adjacent_and_cover_total() {
    let chunks = get_limit_offset_pairs(3, 30).unwrap();
    assert_eq!(chunks.len(), 10);
    assert_eq!(chunks[0].offset, 0);
    for w in chunks.windows(2) {
        assert_eq!(w[1].offset, w[0].limit);
        assert_eq!(w[0].limit - w[0].offset, 3);
    }
    assert_eq!(chunks[9].limit, 30);
}

#[test]
fn each_record_lies_in_one_chunk() {
    let chunks = get_limit_offset_pairs(4, 20).unwrap();
    for x in 0..20usize {
        let holders: Vec<usize> = (0..chunks.len())
            .filter(|&i| chunks[i].offset <= x && x < chunks[i].limit)
            .collect();
        assert_eq!(holders, vec![x / 4]);
    }
}

#[test]
fn page_arithmetic() {
    let res = for_page(7, 25);
    assert_eq!(res, LimitOffsetPair { limit: 200, offset: 175 });
}

#[test]
fn zero_page_size_gives_empty_page() {
    let res = for_page(5, 0);
    assert_eq!(res.offset, 0);
    assert_eq!(res.limit, 0);
}

#[test]
fn largest_page_fits() {
    let res = for_page(0, usize::MAX);
    assert_eq!(res.offset, 0);
    assert_eq!(res.limit, usize::MAX);
    let res = for_page(usize::MAX - 1, 1);
    assert_eq!(res.offset, usize::MAX - 1);
    assert_eq!(res.limit, usize::MAX);
}
