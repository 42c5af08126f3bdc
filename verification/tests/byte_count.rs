use cgroup_bandwidth_limit::byte_count::ByteCount;

fn reference(n: u64) -> String {
    if n < 1024 {
        format!("{}B", n)
    } else if n < 1024 * 1024 {
        format!("{:.1}KiB", n as f64 / 1024.)
    } else if n < 1024 * 1024 * 1024 {
        format!("{:.1}MiB", n as f64 / (1024. * 1024.))
    } else {
        format!("{:.1}GiB", n as f64 / (1024. * 1024. * 1024.))
    }
}

#[test]
fn bytes_below_one_kib_are_plain() {
    assert_eq!(ByteCount(0).to_string(), "0B");
    assert_eq!(ByteCount(9).to_string(), "9B");
    assert_eq!(ByteCount(10).to_string(), "10B");
    assert_eq!(ByteCount(512).to_string(), "512B");
    assert_eq!(ByteCount(1023).to_string(), "1023B");
}

#[test]
fn kib_has_one_decimal() {
    assert_eq!(ByteCount(1024).to_string(), "1.0KiB");
    assert_eq!(ByteCount(2048).to_string(), "2.0KiB");
    assert_eq!(ByteCount(1536).to_string(), "1.5KiB");
    assert_eq!(ByteCount(1048575).to_string(), "1024.0KiB");
}

#[test]
fn mib_has_one_decimal() {
    assert_eq!(ByteCount(1024 * 1024).to_string(), "1.0MiB");
    assert_eq!(ByteCount(3 * 1024 * 1024).to_string(), "3.0MiB");
    assert_eq!(ByteCount(1024 * 1024 * 1024 - 1).to_string(), "1024.0MiB");
}

#[test]
fn gib_has_one_decimal() {
    assert_eq!(ByteCount(1024 * 1024 * 1024).to_string(), "1.0GiB");
    assert_eq!(ByteCount(5 * 1024 * 1024 * 1024).to_string(), "5.0GiB");
    assert_eq!(ByteCount(u64::MAX).to_string(), "17179869184.0GiB");
}

#[test]
fn ties_go_to_the_even_digit() {
    // 1.25 KiB and 1.75 KiB lie exactly between two tenths.
    assert_eq!(ByteCount(1280).to_string(), "1.2KiB");
    assert_eq!(ByteCount(1792).to_string(), "1.8KiB");
    // 1.05 KiB is not a tie: 1075 / 1024 lies just below it.
    assert_eq!(ByteCount(1075).to_string(), "1.0KiB");
    assert_eq!(ByteCount(1076).to_string(), "1.1KiB");
}

#[test]
fn agrees_with_floating_point_formatting_on_edges() {
    let mut edges: Vec<u64> = Vec::new();
    for shift in 0..64u32 {
        let p = 1u64 << shift;
        for d in 0..4u64 {
            edges.push(p.wrapping_add(d));
            edges.push(p.wrapping_sub(d));
            edges.push(p.wrapping_mul(3).wrapping_add(d));
            edges.push((p / 10).wrapping_mul(7).wrapping_add(d));
        }
    }
    edges.push(u64::MAX);
    edges.push(u64::MAX - 1023);
    edges.push(u64::MAX - 1024);
    edges.push((1u64 << 53) + 1);
    edges.push((1u64 << 54) + 2);
    edges.push((1u64 << 54) + 6);
    for n in edges {
        assert_eq!(ByteCount(n).to_string(), reference(n), "for {}", n);
    }
}

#[test]
fn agrees_with_floating_point_formatting_on_a_sweep() {
    // A multiplicative walk over the whole range of counts.
    let mut n: u64 = 1;
    let mut steps = 0;
    while steps < 20000 {
        assert_eq!(ByteCount(n).to_string(), reference(n), "for {}", n);
        n = n.wrapping_mul(6364136223846793005).wrapping_add(1442695040888963407);
        steps += 1;
    }
    // Every count of the first two units' lower end.
    for n in 0..70000u64 {
        assert_eq!(ByteCount(n).to_string(), reference(n), "for {}", n);
    }
}
