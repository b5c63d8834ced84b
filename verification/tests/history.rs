use audiolink::channel::ChannelHistory;
use audiolink::history::RollingHistory;

#[test]
fn new_history_is_filled() {
    let history = RollingHistory::new(4, 0.0f32);
    assert_eq!(history.len(), 4);
    assert_eq!(history.to_vec(), vec![0.0, 0.0, 0.0, 0.0]);
}

#[test]
fn insert_puts_newest_at_index_zero_and_keeps_length() {
    let mut history = RollingHistory::new(3, 0i32);
    for sample in 1..=10 {
        history.insert(sample);
        assert_eq!(history.len(), 3);
        assert_eq!(history.get(0), Some(sample));
    }
    assert_eq!(history.to_vec(), vec![10, 9, 8]);
}

#[test]
fn insert_hands_back_the_oldest_entry() {
    let mut history = RollingHistory::new(3, 0i32);
    assert_eq!(history.insert(1), 0);
    assert_eq!(history.insert(2), 0);
    assert_eq!(history.insert(3), 0);
    assert_eq!(history.insert(4), 1);
    assert_eq!(history.insert(5), 2);
}

#[test]
fn insertion_after_a_full_turn_evicts_the_first_inserted() {
    let len = 5usize;
    let mut history = RollingHistory::new(len, -1i64);
    for sample in 0..len as i64 {
        history.insert(100 + sample);
    }
    assert_eq!(history.insert(999), 100);
    assert_eq!(history.to_vec(), vec![999, 104, 103, 102, 101]);
}

#[test]
fn empty_history_stays_empty() {
    let mut history = RollingHistory::new(0, 0u8);
    assert_eq!(history.insert(7), 7);
    assert_eq!(history.len(), 0);
    assert_eq!(history.get(0), None);
    assert_eq!(history.to_vec(), Vec::<u8>::new());
}

#[test]
fn get_beyond_the_length_is_none() {
    let history = RollingHistory::new(2, 5u8);
    assert_eq!(history.get(1), Some(5));
    assert_eq!(history.get(2), None);
    assert_eq!(history.get(usize::MAX), None);
}

#[test]
fn extend_shifts_a_block_in_arrival_order() {
    let mut history = RollingHistory::new(4, 0i32);
    history.extend(&[1, 2, 3]);
    assert_eq!(history.to_vec(), vec![3, 2, 1, 0]);
    history.extend(&[4, 5, 6, 7, 8, 9]);
    assert_eq!(history.to_vec(), vec![9, 8, 7, 6]);
    history.extend(&[]);
    assert_eq!(history.to_vec(), vec![9, 8, 7, 6]);
}

#[test]
fn extend_equals_repeated_insert() {
    let block = [3.5f32, -1.0, 0.25, 8.0, -2.0];
    let mut one = RollingHistory::new(3, 0.0f32);
    let mut other = RollingHistory::new(3, 0.0f32);
    one.extend(&block);
    for sample in block {
        other.insert(sample);
    }
    assert_eq!(one.to_vec(), other.to_vec());
    assert_eq!(one.to_vec(), vec![-2.0, 8.0, 0.25]);
}

#[test]
fn new_channel_forwards_the_first_sample() {
    let mut channel = ChannelHistory::new(4, 0i32);
    assert!(!channel.is_on_alternate_sample());
    channel.push_sample(1);
    assert!(channel.is_on_alternate_sample());
    assert_eq!(channel.full_rate_samples(), vec![1, 0, 0, 0]);
    assert_eq!(channel.half_rate_samples(), vec![1, 0, 0, 0]);
    channel.push_sample(2);
    assert!(!channel.is_on_alternate_sample());
    assert_eq!(channel.full_rate_samples(), vec![2, 1, 0, 0]);
    assert_eq!(channel.half_rate_samples(), vec![1, 0, 0, 0]);
}

#[test]
fn new_channel_forwards_every_second_sample_from_the_first() {
    let mut channel = ChannelHistory::new(8, 0i32);
    channel.push_block(&[1, 2, 3, 4, 5]);
    assert_eq!(channel.full_rate_samples(), vec![5, 4, 3, 2, 1, 0, 0, 0]);
    assert_eq!(channel.half_rate_samples(), vec![5, 3, 1, 0, 0, 0, 0, 0]);
    assert!(channel.is_on_alternate_sample());
}

#[test]
fn channel_with_flag_on_forwards_half_rounded_down_from_the_second() {
    let mut channel = ChannelHistory::new(8, 0i32);
    channel.push_sample(-1);
    assert!(channel.is_on_alternate_sample());
    channel.push_block(&[1, 2, 3, 4, 5]);
    assert_eq!(channel.half_rate_samples(), vec![4, 2, -1, 0, 0, 0, 0, 0]);
    assert_eq!(channel.full_rate_samples(), vec![5, 4, 3, 2, 1, -1, 0, 0]);
    assert!(!channel.is_on_alternate_sample());
}

#[test]
fn even_block_forwards_exactly_half() {
    let mut channel = ChannelHistory::new(16, 0i32);
    channel.push_block(&[1, 2, 3, 4, 5, 6]);
    let forwarded: Vec<i32> =
        channel.half_rate_samples().into_iter().filter(|sample| *sample != 0).collect();
    assert_eq!(forwarded, vec![5, 3, 1]);
}

#[test]
fn blocks_in_a_row_equal_one_block() {
    let mut split = ChannelHistory::new(6, 0i32);
    split.push_block(&[1, 2, 3]);
    split.push_block(&[]);
    split.push_block(&[4, 5, 6, 7]);
    let mut whole = ChannelHistory::new(6, 0i32);
    whole.push_block(&[1, 2, 3, 4, 5, 6, 7]);
    assert_eq!(split.full_rate_samples(), whole.full_rate_samples());
    assert_eq!(split.half_rate_samples(), whole.half_rate_samples());
    assert_eq!(split.is_on_alternate_sample(), whole.is_on_alternate_sample());
    assert_eq!(whole.half_rate_samples(), vec![7, 5, 3, 1, 0, 0]);
}

#[test]
fn channel_entries_by_index() {
    let mut channel = ChannelHistory::new(2, 0i32);
    channel.push_block(&[1, 2, 3]);
    assert_eq!(channel.len(), 2);
    assert_eq!(channel.full_rate_at(0), Some(3));
    assert_eq!(channel.full_rate_at(1), Some(2));
    assert_eq!(channel.full_rate_at(2), None);
    assert_eq!(channel.half_rate_at(0), Some(3));
    assert_eq!(channel.half_rate_at(1), Some(1));
    assert_eq!(channel.half_rate_at(2), None);
}
