use rust_hw::buffer::Buffer;
use rust_hw::letters::next_letters;
use rust_hw::lifo::StackLifo;
use rust_hw::my_rc::MyRc;
use rust_hw::strcmp::compare_str;
use rust_hw::sums::range_sum;

#[test]
fn compare_str_emoji_against_victory_hand() {
    // "🤡" starts with byte 0xF0, "✌" with 0xE2.
    assert!(compare_str("🤡", "✌"));
    assert!(!compare_str("✌", "🤡"));
}

#[test]
fn compare_str_ascii_cases() {
    assert!(compare_str("abd", "abc"));
    assert!(!compare_str("abc", "abd"));
    assert!(!compare_str("abc", "abc"));
    assert!(!compare_str("", ""));
}

#[test]
fn compare_str_longer_extension_is_greater() {
    assert!(compare_str("ab", "a"));
    assert!(!compare_str("a", "ab"));
    assert!(compare_str("a", ""));
    assert!(!compare_str("", "a"));
}

#[test]
fn compare_str_agrees_with_std_order() {
    let words = ["", "a", "ab", "abc", "abd", "b", "ba", "🤡", "✌", "é", "e"];
    for x in words {
        for y in words {
            assert_eq!(compare_str(x, y), x > y, "{:?} vs {:?}", x, y);
        }
    }
}

#[test]
fn compare_str_is_transitive_on_examples() {
    assert!(compare_str("c", "b"));
    assert!(compare_str("b", "a"));
    assert!(compare_str("c", "a"));
}

#[test]
fn buffer_sums_one_to_five() {
    let buffer = Buffer::new(vec![1, 2, 3, 4, 5]);
    assert_eq!(buffer.sum_t(), 15);
}

#[test]
fn buffer_sums_empty_and_negative() {
    assert_eq!(Buffer::<i32>::new(vec![]).sum_t(), 0);
    assert_eq!(Buffer::new(vec![-3, 7, -10]).sum_t(), -6);
    assert_eq!(Buffer::new(vec![i32::MAX, -1, 1]).sum_t(), i32::MAX);
}

#[test]
fn stack_pops_in_reverse_order() {
    let mut t_stack = StackLifo::new();
    t_stack.push(1);
    t_stack.push(2);
    t_stack.push(3);
    assert_eq!(t_stack.pop(), Some(3));
    assert_eq!(t_stack.pop(), Some(2));
    assert_eq!(t_stack.pop(), Some(1));
    assert_eq!(t_stack.pop(), None);
}

#[test]
fn stack_pop_undoes_push() {
    let mut s = StackLifo::new();
    s.push("a");
    s.push("b");
    assert_eq!(s.pop(), Some("b"));
    s.push("c");
    assert_eq!(s.pop(), Some("c"));
    assert_eq!(s.pop(), Some("a"));
    assert_eq!(s.pop(), None);
}

#[test]
fn my_rc_counts_clones() {
    let mut rc1 = MyRc::new(5);
    assert_eq!(*rc1.deref(), 5);
    assert_eq!(rc1.strong_conut(), 1);
    let mut rc2 = rc1.clone();
    assert_eq!(rc1.strong_conut(), 2);
    assert_eq!(rc2.strong_conut(), 2);
    assert_eq!(*rc2.deref(), 5);
    {
        let rc3 = rc2.clone();
        assert_eq!(*rc3.deref(), 5);
        assert_eq!(rc1.strong_conut(), 3);
        assert_eq!(rc3.strong_conut(), 3);
    }
    assert_eq!(rc1.strong_conut(), 2);
    assert_eq!(rc2.strong_conut(), 2);
}

#[test]
fn next_letters_wraps_z_to_a() {
    let v = vec!['a', 'b', 'c', 'd', 'z'];
    assert_eq!(next_letters(&v), Some(vec!['b', 'c', 'd', 'e', 'a']));
}

#[test]
fn next_letters_past_z_goes_to_a() {
    assert_eq!(next_letters(&vec!['{', 'A', ' ']), Some(vec!['a', 'B', '!']));
    assert_eq!(next_letters(&vec![]), Some(vec![]));
}

#[test]
fn next_letters_sends_everything_past_z_to_a() {
    assert_eq!(next_letters(&vec!['a', '\u{D7FF}', '🤡', 'y']), Some(vec!['b', 'a', 'a', 'z']));
}

#[test]
fn range_sums_of_the_demo_loops() {
    assert_eq!(range_sum(0, 1000), 499500);
    assert_eq!(range_sum(1, 1000), 499500);
    assert_eq!(range_sum(5, 5), 0);
    assert_eq!(range_sum(7, 3), 0);
    assert_eq!(range_sum(u32::MAX - 1, u32::MAX), (u32::MAX - 1) as u64);
}

#[test]
fn buffer_sum_of_joined_and_reordered() {
    let v1 = vec![4, -2, 9];
    let v2 = vec![10, 1];
    let joined: Vec<i32> = v1.iter().chain(v2.iter()).cloned().collect();
    assert_eq!(
        Buffer::new(joined).sum_t(),
        Buffer::new(v1.clone()).sum_t() + Buffer::new(v2).sum_t()
    );
    assert_eq!(Buffer::new(vec![9, 4, -2]).sum_t(), Buffer::new(v1).sum_t());
}

#[test]
fn buffer_over_other_integer_types() {
    assert_eq!(Buffer::new(vec![200u8, 55u8]).sum_t(), 255u8);
    assert_eq!(Buffer::new(vec![i64::MAX, -1i64, 1i64]).sum_t(), i64::MAX);
    assert_eq!(Buffer::new(vec![1usize, 2, 3]).sum_t(), 6usize);
    assert_eq!(Buffer::<u16>::new(vec![]).sum_t(), 0u16);
}
