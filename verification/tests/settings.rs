use pixiv_proxy::routes::settings::{
    blocked_users_add, blocked_users_del, format_blocked_userids, get_blocked_userids,
    set_blocked_userids, BlockedUsers, BLOCKED_COOKIE, SEPERATOR,
};

fn users(ids: &[u64]) -> BlockedUsers {
    let mut set = BlockedUsers::new();
    for id in ids {
        set.insert(*id);
    }
    set
}

fn sorted(set: &BlockedUsers) -> Vec<u64> {
    let mut ids = set.ids();
    ids.sort_unstable();
    ids
}

fn numbers(list: &str, sep: &str) -> Vec<u64> {
    let mut ids: Vec<u64> = list.split(sep).map(|part| part.parse().unwrap()).collect();
    ids.sort_unstable();
    ids
}

#[test]
fn set_keeps_ids_once() {
    let mut set = BlockedUsers::new();
    assert!(set.is_empty());
    assert!(set.ids().is_empty());
    assert!(set.insert(30));
    assert!(set.insert(10));
    assert!(set.insert(20));
    assert!(!set.insert(10));
    assert_eq!(sorted(&set), vec![10, 20, 30]);
    assert_eq!(set.len(), 3);
    assert!(set.contains(20));
    assert!(!set.contains(25));
    assert!(set.remove(20));
    assert!(!set.remove(20));
    assert_eq!(sorted(&set), vec![10, 30]);
    assert!(set.insert(u64::MAX));
    assert!(set.insert(0));
    assert_eq!(sorted(&set), vec![0, 10, 30, u64::MAX]);
    assert!(!set.is_empty());
}

#[test]
fn cookie_names_the_blocked_users() {
    assert_eq!(sorted(&get_blocked_userids(Some("12345%7C23456%7C34567"))), vec![12345, 23456, 34567]);
    assert_eq!(sorted(&get_blocked_userids(Some("3%7C1%7C2%7C1"))), vec![1, 2, 3]);
    assert_eq!(sorted(&get_blocked_userids(Some("7"))), vec![7]);
    assert!(get_blocked_userids(Some("")).is_empty());
    assert!(get_blocked_userids(None).is_empty());
}

#[test]
fn parts_that_are_no_number_are_passed_over() {
    assert_eq!(sorted(&get_blocked_userids(Some("1%7Cabc%7C2%7C%7C-3%7C+4%7C 5"))), vec![1, 2, 4]);
    assert!(get_blocked_userids(Some("1|2|3")).is_empty());
    assert_eq!(
        sorted(&get_blocked_userids(Some("18446744073709551615%7C18446744073709551616"))),
        vec![u64::MAX]
    );
    assert!(get_blocked_userids(Some("1%7c2")).is_empty());
    assert_eq!(sorted(&get_blocked_userids(Some("%7C9%7C"))), vec![9]);
}

#[test]
fn list_for_the_reader() {
    let list = format_blocked_userids(&users(&[34567, 12345, 23456]));
    assert_eq!(list.len(), "12345|23456|34567".len());
    assert_eq!(numbers(&list, "|"), vec![12345, 23456, 34567]);
    assert_eq!(format_blocked_userids(&users(&[5])), "5");
    assert_eq!(format_blocked_userids(&users(&[])), "");
}

#[test]
fn list_for_the_cookie() {
    assert_eq!(BLOCKED_COOKIE, "blocked_users");
    assert_eq!(SEPERATOR, "%7C");
    let header = set_blocked_userids(&users(&[2, 1]));
    assert!(header == "blocked_users=1%7C2; Path=/" || header == "blocked_users=2%7C1; Path=/");
    assert_eq!(set_blocked_userids(&users(&[7])), "blocked_users=7; Path=/");
    assert_eq!(set_blocked_userids(&users(&[])), "blocked_users=; Path=/");
}

#[test]
fn cookie_round_trip() {
    let set = users(&[9, 8, 7, 1000000, 0, u64::MAX]);
    let header = set_blocked_userids(&set);
    let value = header.strip_prefix("blocked_users=").unwrap().strip_suffix("; Path=/").unwrap();
    assert_eq!(numbers(value, "%7C"), sorted(&set));
    assert_eq!(sorted(&get_blocked_userids(Some(value))), sorted(&set));
}

#[test]
fn form_blocks_one_user() {
    let set = blocked_users_add(users(&[1, 3]), "2=Block").unwrap();
    assert_eq!(sorted(&set), vec![1, 2, 3]);
    let set = blocked_users_add(set, "2=Block").unwrap();
    assert_eq!(sorted(&set), vec![1, 2, 3]);
}

#[test]
fn form_blocks_a_list() {
    let set = blocked_users_add(users(&[1]), "bulk=5%7C4%7Cx%7C1").unwrap();
    assert_eq!(sorted(&set), vec![1, 4, 5]);
    let set = blocked_users_add(users(&[1]), "bulk=").unwrap();
    assert_eq!(sorted(&set), vec![1]);
}

#[test]
fn form_unblocks() {
    let set = blocked_users_del(users(&[1, 2, 3]), "2=Unblock").unwrap();
    assert_eq!(sorted(&set), vec![1, 3]);
    let set = blocked_users_del(users(&[1, 2, 3]), "bulk=3%7C1%7C9").unwrap();
    assert_eq!(sorted(&set), vec![2]);
    let set = blocked_users_del(users(&[1]), "7=Unblock").unwrap();
    assert_eq!(sorted(&set), vec![1]);
}

#[test]
fn form_that_names_nothing() {
    assert!(blocked_users_add(users(&[1]), "").is_none());
    assert!(blocked_users_add(users(&[1]), "12345").is_none());
    assert!(blocked_users_add(users(&[1]), "name=value").is_none());
    assert!(blocked_users_add(users(&[1]), "=5").is_none());
    assert!(blocked_users_del(users(&[1]), "Bulk=1").is_none());
    assert!(blocked_users_del(users(&[1]), "bulk").is_none());
}

#[test]
fn key_ends_at_the_first_equals_sign() {
    let set = blocked_users_add(users(&[]), "bulk=1=2%7C3").unwrap();
    assert_eq!(sorted(&set), vec![3]);
    let set = blocked_users_add(users(&[]), "4==").unwrap();
    assert_eq!(sorted(&set), vec![4]);
}
