use ma_timing::utils::{checked_next_power_of_two, CircularBuffer};

fn collect(buf: &CircularBuffer<u64>) -> Vec<u64> {
    let mut seen = Vec::new();
    let mut it = buf.iter();
    while let Some(v) = it.next() {
        seen.push(*v);
    }
    seen
}

fn sum_of(buf: &CircularBuffer<i32>) -> i32 {
    let mut it = buf.iter();
    let mut tot = 0;
    while let Some(v) = it.next() {
        tot += *v;
    }
    tot
}

#[test]
fn test() {
    let mut buf = CircularBuffer::new(32);
    let mut tot = 0;
    for i in 0..30 {
        buf.push(i);
        tot += i;
    }

    assert_eq!(tot, sum_of(&buf));

    let mut buf = CircularBuffer::new(32);
    let mut tot = 0;
    for i in 1..36 {
        buf.push(i);
        if i > 3 {
            tot += i;
        }
    }
    assert_eq!(tot, sum_of(&buf));
}

#[test]
fn circular_overwrite() {
    let mut buf: CircularBuffer<u64> = CircularBuffer::new(32);
    for i in 0..35u64 {
        buf.push(i);
    }
    let expected: Vec<u64> = (3..35).collect();
    assert_eq!(collect(&buf), expected);
    assert_eq!(buf.len(), 32);
    assert_eq!(*buf.last(), 34);
}

#[test]
fn empty_buffer_yields_nothing() {
    let buf: CircularBuffer<u64> = CircularBuffer::new(8);
    assert_eq!(buf.len(), 0);
    assert!(buf.iter().next().is_none());
    assert_eq!(collect(&buf), Vec::<u64>::new());
}

#[test]
fn partly_filled_buffer_yields_what_was_pushed() {
    let mut buf: CircularBuffer<u64> = CircularBuffer::new(8);
    for i in 10..15u64 {
        buf.push(i);
    }
    assert_eq!(buf.len(), 5);
    assert_eq!(collect(&buf), vec![10, 11, 12, 13, 14]);
    assert_eq!(*buf.last(), 14);
    assert_eq!(*buf.get(0), 10);
    assert_eq!(*buf.get(4), 14);
}

#[test]
fn last_after_one_push() {
    let mut buf: CircularBuffer<u64> = CircularBuffer::new(4);
    buf.push(7);
    assert_eq!(*buf.last(), 7);
    buf.push(8);
    assert_eq!(*buf.last(), 8);
}

#[test]
fn last_when_the_write_position_has_just_wrapped() {
    let mut buf: CircularBuffer<u64> = CircularBuffer::new(4);
    for i in 1..=4u64 {
        buf.push(i);
    }
    assert_eq!(buf.len(), 4);
    assert_eq!(*buf.last(), 4);
    assert_eq!(collect(&buf), vec![1, 2, 3, 4]);
}

#[test]
fn capacity_is_rounded_up_to_a_power_of_two() {
    let mut buf: CircularBuffer<u64> = CircularBuffer::new(5);
    for i in 0..20u64 {
        buf.push(i);
    }
    assert_eq!(buf.len(), 8);
    assert_eq!(collect(&buf), vec![12, 13, 14, 15, 16, 17, 18, 19]);
}

#[test]
fn capacity_of_zero_and_one_is_one() {
    let mut zero: CircularBuffer<u64> = CircularBuffer::new(0);
    zero.push(1);
    zero.push(2);
    assert_eq!(zero.len(), 1);
    assert_eq!(collect(&zero), vec![2]);
    assert_eq!(*zero.last(), 2);
    let mut one: CircularBuffer<u64> = CircularBuffer::new(1);
    one.push(3);
    assert_eq!(collect(&one), vec![3]);
}

#[test]
fn iteration_keeps_the_last_pushes_in_order() {
    for cap in [1usize, 2, 4, 8] {
        for k in 0..30u64 {
            let mut buf: CircularBuffer<u64> = CircularBuffer::new(cap);
            for v in 0..k {
                buf.push(v * 3);
            }
            let kept = std::cmp::min(k, cap as u64);
            let expected: Vec<u64> = (k - kept..k).map(|v| v * 3).collect();
            assert_eq!(collect(&buf), expected);
            assert_eq!(buf.len() as u64, kept);
        }
    }
}

#[test]
fn iter_mut_walks_oldest_first_and_writes_in_place() {
    let mut buf: CircularBuffer<u64> = CircularBuffer::new(4);
    for i in 0..6u64 {
        buf.push(i);
    }
    assert_eq!(collect(&buf), vec![2, 3, 4, 5]);
    let mut seen = Vec::new();
    {
        let mut it = buf.iter_mut();
        while let Some(v) = it.next() {
            seen.push(*v);
            *v += 100;
        }
    }
    assert_eq!(seen, vec![2, 3, 4, 5]);
    assert_eq!(collect(&buf), vec![102, 103, 104, 105]);
    assert_eq!(buf.len(), 4);
    buf.push(9);
    assert_eq!(collect(&buf), vec![103, 104, 105, 9]);
}

#[test]
fn iter_mut_on_a_partly_filled_buffer() {
    let mut buf: CircularBuffer<u64> = CircularBuffer::new(8);
    buf.push(1);
    buf.push(2);
    let mut n = 0;
    {
        let mut it = buf.iter_mut();
        while let Some(v) = it.next() {
            *v *= 10;
            n += 1;
        }
    }
    assert_eq!(n, 2);
    assert_eq!(collect(&buf), vec![10, 20]);
}

#[test]
fn next_power_of_two_values() {
    assert_eq!(checked_next_power_of_two(0), Some(1));
    assert_eq!(checked_next_power_of_two(1), Some(1));
    assert_eq!(checked_next_power_of_two(2), Some(2));
    assert_eq!(checked_next_power_of_two(3), Some(4));
    assert_eq!(checked_next_power_of_two(256), Some(256));
    assert_eq!(checked_next_power_of_two(257), Some(512));
    assert_eq!(checked_next_power_of_two(usize::MAX / 2 + 1), Some(usize::MAX / 2 + 1));
    assert_eq!(checked_next_power_of_two(usize::MAX / 2 + 2), None);
    assert_eq!(checked_next_power_of_two(usize::MAX), None);
}

#[test]
fn to_vec_gives_what_iteration_gives() {
    let mut buf: CircularBuffer<u64> = CircularBuffer::new(4);
    assert_eq!(buf.to_vec(), Vec::<u64>::new());
    for i in 0..7u64 {
        buf.push(i);
        assert_eq!(buf.to_vec(), collect(&buf));
    }
    assert_eq!(buf.to_vec(), vec![3, 4, 5, 6]);
}
