use vorbisfile::callbacks::{close, seek, tell, ElementRead, ReadStep};

/// A source over a byte string that hands out at most `fragment` bytes at a
/// time, and fails once `fail_after` bytes are out, if that is set.
struct Fragments {
    data: Vec<u8>,
    at: usize,
    fragment: usize,
    fail_after: Option<usize>,
    reads: usize,
}

impl Fragments {
    fn new(data: &[u8], fragment: usize) -> Fragments {
        Fragments { data: data.to_vec(), at: 0, fragment, fail_after: None, reads: 0 }
    }

    fn read(&mut self, buf: &mut [u8]) -> Option<usize> {
        self.reads += 1;
        if let Some(limit) = self.fail_after {
            if self.at >= limit {
                return None;
            }
        }
        let mut n = buf.len().min(self.fragment).min(self.data.len() - self.at);
        if let Some(limit) = self.fail_after {
            n = n.min(limit - self.at);
        }
        buf[..n].copy_from_slice(&self.data[self.at..self.at + n]);
        self.at += n;
        Some(n)
    }
}

/// Runs one read callback as a host does: the plan says where to read, the
/// source answers, the plan takes the answer in.
fn run(source: &mut Fragments, buf: &mut [u8], size: usize, nmemb: usize) -> usize {
    let mut plan = ElementRead::new(size, nmemb);
    loop {
        match plan.next() {
            ReadStep::Return(n) => return n,
            ReadStep::Fill { offset, len } => {
                let got = source.read(&mut buf[offset..offset + len]);
                if let Some(n) = got {
                    assert!(n <= len);
                }
                plan.record(got);
            }
        }
    }
}

fn pattern(len: usize) -> Vec<u8> {
    (0..len).map(|i| (i * 7 + 3) as u8).collect()
}

#[test]
fn fragments_of_three_fill_a_request_of_4096() {
    let data = pattern(10000);
    let mut whole = Fragments::new(&data, usize::MAX);
    let mut pieces = Fragments::new(&data, 3);
    let mut a = vec![0u8; 4096];
    let mut b = vec![0u8; 4096];
    assert_eq!(run(&mut whole, &mut a, 1, 4096), 4096);
    assert_eq!(run(&mut pieces, &mut b, 1, 4096), 4096);
    assert_eq!(a, b);
    assert_eq!(&a[..], &data[..4096]);
    assert_eq!(pieces.at, 4096);
}

#[test]
fn fragments_of_three_fill_one_element_of_4096() {
    let data = pattern(5000);
    let mut whole = Fragments::new(&data, usize::MAX);
    let mut pieces = Fragments::new(&data, 3);
    let mut a = vec![0u8; 4096];
    let mut b = vec![0u8; 4096];
    assert_eq!(run(&mut whole, &mut a, 4096, 1), 1);
    assert_eq!(run(&mut pieces, &mut b, 4096, 1), 1);
    assert_eq!(whole.reads, 1);
    assert_eq!(pieces.reads, 1366);
    assert_eq!(a, b);
    assert_eq!(&b[..], &data[..4096]);
}

#[test]
fn fragments_do_not_change_what_larger_elements_hold() {
    let data = pattern(4096);
    for fragment in [1, 2, 3, 5, 7, 64, 4096] {
        let mut source = Fragments::new(&data, fragment);
        let mut buf = vec![0u8; 4096];
        assert_eq!(run(&mut source, &mut buf, 16, 256), 256);
        assert_eq!(buf, data);
    }
}

#[test]
fn consecutive_callbacks_continue_where_the_source_stands() {
    let data = pattern(300);
    let mut source = Fragments::new(&data, 3);
    let mut first = vec![0u8; 100];
    let mut second = vec![0u8; 100];
    assert_eq!(run(&mut source, &mut first, 1, 100), 100);
    assert_eq!(run(&mut source, &mut second, 1, 100), 100);
    assert_eq!(&first[..], &data[..100]);
    assert_eq!(&second[..], &data[100..200]);
}

#[test]
fn a_source_that_ends_at_once_gives_no_element() {
    let mut source = Fragments::new(&[], 3);
    let mut buf = vec![0u8; 4096];
    assert_eq!(run(&mut source, &mut buf, 1, 4096), 0);
    assert_eq!(source.reads, 1);
}

#[test]
fn a_source_that_fails_at_once_gives_no_element() {
    let mut source = Fragments::new(&pattern(100), 3);
    source.fail_after = Some(0);
    let mut buf = vec![0u8; 4096];
    assert_eq!(run(&mut source, &mut buf, 1, 4096), 0);
    assert_eq!(source.reads, 1);
}

#[test]
fn a_short_source_gives_the_full_elements_only() {
    let data = pattern(10);
    let mut source = Fragments::new(&data, 3);
    let mut buf = vec![0u8; 16];
    assert_eq!(run(&mut source, &mut buf, 4, 4), 2);
    assert_eq!(&buf[..10], &data[..]);
}

#[test]
fn a_failure_inside_an_element_does_not_count_it() {
    let data = pattern(100);
    let mut source = Fragments::new(&data, 3);
    source.fail_after = Some(11);
    let mut buf = vec![0u8; 32];
    assert_eq!(run(&mut source, &mut buf, 4, 8), 2);
    assert_eq!(&buf[..11], &data[..11]);
}

#[test]
fn the_plan_names_each_step() {
    let mut plan = ElementRead::new(4, 2);
    assert_eq!(plan.next(), ReadStep::Fill { offset: 0, len: 4 });
    plan.record(Some(3));
    assert_eq!(plan.next(), ReadStep::Fill { offset: 3, len: 1 });
    plan.record(Some(1));
    assert_eq!(plan.next(), ReadStep::Fill { offset: 4, len: 4 });
    plan.record(Some(4));
    assert_eq!(plan.next(), ReadStep::Return(2));
}

#[test]
fn a_clean_end_stops_the_plan() {
    let mut plan = ElementRead::new(4, 2);
    plan.record(Some(4));
    plan.record(Some(2));
    plan.record(Some(0));
    assert_eq!(plan.next(), ReadStep::Return(1));
    assert_eq!(plan.next(), ReadStep::Return(1));
}

#[test]
fn an_empty_request_returns_at_once() {
    assert_eq!(ElementRead::new(1, 0).next(), ReadStep::Return(0));
    assert_eq!(ElementRead::new(0, 0).next(), ReadStep::Return(0));
}

#[test]
fn elements_of_no_bytes_are_all_full() {
    assert_eq!(ElementRead::new(0, 5).next(), ReadStep::Return(5));
}

#[test]
fn seek_reports_failure() {
    assert_eq!(seek(0, 0), -1);
    assert_eq!(seek(1234, 1), -1);
    assert_eq!(seek(-1, 2), -1);
}

#[test]
fn tell_reports_failure() {
    assert_eq!(tell(), -1);
}

#[test]
fn close_succeeds() {
    assert_eq!(close(), 0);
}
