use uring_runtime::cqe::{CqeFlag, CqeFlags, IoUringCqe, StrippedCqe};

#[test]
fn buffer_id_is_the_upper_half() {
    assert_eq!(CqeFlags::from(0x0003_0001).buffer_id(), Some(3));
    assert_eq!(CqeFlags::from(0xffff_0001).buffer_id(), Some(0xffff));
    assert_eq!(CqeFlags::from(0x0003_0000).buffer_id(), None);
    assert_eq!(CqeFlags::from(1).buffer_id(), Some(0));
}

#[test]
fn each_flag_has_its_bit() {
    let flags = [
        (CqeFlag::BufferId(9), 1u32),
        (CqeFlag::More, 2),
        (CqeFlag::SockNonEmpty, 4),
        (CqeFlag::Notification, 8),
        (CqeFlag::BufMore, 16),
    ];
    for (flag, bit) in flags {
        assert!(CqeFlags::from(bit).contains(flag));
        assert!(!CqeFlags::from(!bit).contains(flag));
    }
}

#[test]
fn accessors_follow_their_bits() {
    assert_eq!(CqeFlags::from(2).more(), Some(()));
    assert_eq!(CqeFlags::from(4).more(), None);
    assert_eq!(CqeFlags::from(4).sock_nonempty(), Some(()));
    assert_eq!(CqeFlags::from(2).sock_nonempty(), None);
    assert_eq!(CqeFlags::from(8).notification(), Some(()));
    assert_eq!(CqeFlags::from(16).notification(), None);
    assert_eq!(CqeFlags::from(16).buf_more(), Some(()));
    assert_eq!(CqeFlags::from(8).buf_more(), None);
}

#[test]
fn only_zero_is_empty() {
    assert!(CqeFlags::from(0).is_empty());
    assert!(!CqeFlags::from(1).is_empty());
    assert!(!CqeFlags::from(0x8000_0000).is_empty());
}

#[test]
fn empty_flags_contain_nothing() {
    let empty = CqeFlags::from(0);
    assert!(!empty.contains(CqeFlag::BufferId(0)));
    assert!(!empty.contains(CqeFlag::More));
    assert!(!empty.contains(CqeFlag::SockNonEmpty));
    assert!(!empty.contains(CqeFlag::Notification));
    assert!(!empty.contains(CqeFlag::BufMore));
}

#[test]
fn stripping_keeps_result_and_flags() {
    let cqe = IoUringCqe { user_data: 77, res: -3, flags: 0x0005_0001 };
    let stripped = StrippedCqe::from(&cqe);
    assert_eq!(stripped.res, -3);
    assert_eq!(stripped.flags, CqeFlags::from(0x0005_0001));
}
