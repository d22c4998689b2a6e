use adaptive_compute::Compute;
use adaptive_compute::THRESHOLD;
use adaptive_compute::compute::below_threshold;
use adaptive_compute::xor::CopyingXor;
use adaptive_compute::xor::copying_xor;

#[test]
fn descending_bytes_scenario() {
    let inp: Vec<u8> = (0..255).collect();
    let out = copying_xor(&inp);
    assert_eq!(out.len(), 255);
    for i in 0..255usize {
        assert_eq!(out[i], 255 - inp[i]);
    }
    assert!(out.windows(2).all(|w| w[0] > w[1]));
    let out2 = CopyingXor(&inp).compute();
    assert_eq!(out, out2);
}

#[test]
fn empty_input_single_empty_subtask() {
    let inp: Vec<u8> = Vec::new();
    let st = CopyingXor(&inp).split();
    assert_eq!(st.total_size, 0);
    assert_eq!(st.inner.len(), 1);
    assert!(st.inner[0].0.is_empty());
    let out = CopyingXor(&inp).compute();
    assert!(out.is_empty());
}

#[test]
fn seven_elements_three_workers() {
    let inp: Vec<u8> = (0..7).collect();
    let st = CopyingXor(&inp).split_into(3);
    assert_eq!(st.total_size, 7);
    let lens: Vec<usize> = st.inner.iter().map(|t| t.0.len()).collect();
    assert_eq!(lens, vec![3, 2, 2]);
    assert_eq!(st.inner[0].0, &inp[0..3]);
    assert_eq!(st.inner[1].0, &inp[3..5]);
    assert_eq!(st.inner[2].0, &inp[5..7]);
}

#[test]
fn threshold_boundary() {
    assert!(below_threshold(THRESHOLD - 1));
    assert!(!below_threshold(THRESHOLD));
    let small = vec![7u8; THRESHOLD - 1];
    assert_eq!(copying_xor(&small), CopyingXor(&small).compute_single_threaded());
    let big = vec![0u8; THRESHOLD];
    let out = CopyingXor(&big).compute();
    assert_eq!(out.len(), THRESHOLD);
    assert!(out.iter().all(|&b| b == 0xFF));
    assert_eq!(out, CopyingXor(&big).compute_single_threaded());
    let par = copying_xor(&big);
    assert_eq!(par, out);
}

#[test]
fn parallel_equals_single_threaded() {
    let data: Vec<u8> = (0..1000u32).map(|x| (x % 251) as u8).collect();
    for n in 1..9usize {
        let st = CopyingXor(&data).split_into(n);
        let d = <CopyingXor as Compute>::distribute(st);
        let joined = <CopyingXor as Compute>::join(d);
        assert_eq!(joined, CopyingXor(&data).compute_single_threaded());
    }
    let big = vec![42u8; THRESHOLD + 13];
    assert_eq!(CopyingXor(&big).compute(), CopyingXor(&big).compute_single_threaded());
}

#[test]
fn split_covers_and_balances() {
    let cases: [(usize, usize); 7] = [(0, 1), (1, 4), (7, 3), (10, 4), (16, 5), (100, 7), (5, 9)];
    for &(l, n) in cases.iter() {
        let data: Vec<u8> = (0..l).map(|x| (x % 256) as u8).collect();
        let st = CopyingXor(&data).split_into(n);
        assert_eq!(st.inner.len(), n);
        let mut rebuilt: Vec<u8> = Vec::new();
        for t in &st.inner {
            rebuilt.extend_from_slice(t.0);
        }
        assert_eq!(rebuilt, data);
        let lens: Vec<usize> = st.inner.iter().map(|t| t.0.len()).collect();
        let mx = *lens.iter().max().unwrap();
        let mn = *lens.iter().min().unwrap();
        assert!(mx - mn <= 1);
    }
}

#[test]
fn complexity_idempotent() {
    let data = vec![1u8, 2, 3, 4];
    let t = CopyingXor(&data);
    let c1 = t.complexity();
    let c2 = t.complexity();
    assert_eq!(c1, c2);
    assert_eq!(c1, 4);
}

#[test]
fn subtask_runs_alone() {
    let data = vec![1u8, 2, 3, 4];
    let out = <CopyingXor as Compute>::compute_subtask(CopyingXor(&data));
    assert_eq!(out, vec![254, 253, 252, 251]);
    <CopyingXor as Compute>::subtask_on_finish(CopyingXor(&data), out);
}
