use file_transfer::stream::FileStream;

fn sizes(len: u64) -> Vec<usize> {
    let mut s = FileStream::new(len);
    let mut out = Vec::new();
    while let Some(n) = s.next_chunk() {
        out.push(n);
    }
    assert_eq!(s.amount_read(), len);
    assert_eq!(s.chunks_left(), 0);
    assert_eq!(s.next_chunk(), None);
    out
}

#[test]
fn empty_file_is_one_empty_chunk() {
    assert_eq!(sizes(0), vec![0]);
}

#[test]
fn short_file_is_one_chunk() {
    assert_eq!(sizes(10), vec![10]);
}

#[test]
fn exact_kibibytes_end_with_an_empty_chunk() {
    assert_eq!(sizes(2048), vec![1024, 1024, 0]);
}

#[test]
fn long_file_ends_with_the_remainder() {
    let s = sizes(2500);
    assert_eq!(s, vec![1024, 1024, 452]);
    assert_eq!(s.iter().sum::<usize>(), 2500);
}

#[test]
fn fresh_stream_counts_chunks() {
    let s = FileStream::new(5000);
    assert_eq!(s.file_length(), 5000);
    assert_eq!(s.amount_read(), 0);
    assert_eq!(s.chunks_left(), 5000 / 1024 + 1);
}
