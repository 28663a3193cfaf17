use memthol::data::{add_diff, add_err, Data};
use memthol::error::DataError;
use memthol::invariants::uid_order_is_toc_order;
use memthol::record::{Alloc, AllocDiff, AllocInit, AllocUid};
use memthol::text::decimal_string;
use memthol::time::{Date, SinceStart};
use memthol::tod_map::TodMap;
use memthol::uid_set::AllocUidSet;

fn at(nanos: u64) -> SinceStart {
    SinceStart::from_nanos(nanos)
}

fn uid(id: u64) -> AllocUid {
    AllocUid::new(id)
}

fn live(id: u64, toc: u64) -> Alloc {
    Alloc::new(uid(id), 8, at(toc), None)
}

fn dead(id: u64, toc: u64, tod: u64) -> Alloc {
    Alloc::new(uid(id), 8, at(toc), Some(at(tod)))
}

fn births(time: u64, ids: &[u64]) -> AllocDiff {
    AllocDiff { time: at(time), new: ids.iter().map(|id| live(*id, 0)).collect(), dead: vec![] }
}

fn deaths(time: u64, ids: &[u64]) -> AllocDiff {
    AllocDiff { time: at(time), new: vec![], dead: ids.iter().map(|id| (uid(*id), at(0))).collect() }
}

fn started() -> Data {
    let mut data = Data::new();
    data.reset(AllocInit { start_time: Date { secs: 10, nanos: 0 } });
    data
}

fn uids_of(allocs: &[Alloc]) -> Vec<u64> {
    allocs.iter().map(|alloc| alloc.uid.id).collect()
}

fn sorted_ids(set: &AllocUidSet) -> Vec<u64> {
    let mut ids: Vec<u64> = set.to_vec().iter().map(|uid| uid.id).collect();
    ids.sort();
    ids
}

#[test]
fn birth_then_death() {
    let mut data = started();
    let t1 = at(100);
    let t2 = at(200);
    let first = AllocDiff { time: t1, new: vec![live(1, 7)], dead: vec![] };
    assert!(data.add_diff(first).is_ok());
    let second = AllocDiff { time: t2, new: vec![], dead: vec![(uid(1), at(150))] };
    assert!(data.add_diff(second).is_ok());
    let alloc = *data.get_alloc(uid(1)).unwrap();
    assert_eq!(alloc.toc, t1);
    assert_eq!(alloc.tod, Some(t2));
    let groups = data.iter_dead_since(t1);
    assert_eq!(groups.len(), 1);
    assert_eq!(groups[0].time, t2);
    assert_eq!(groups[0].uids.to_vec(), vec![uid(1)]);
    assert!(groups[0].uids.contains(uid(1)));
}

#[test]
fn new_store_is_empty() {
    let data = Data::new();
    assert_eq!(data.current_time(), SinceStart::zero());
    assert!(data.iter_all().is_empty());
    assert!(data.errors().is_empty());
    assert_eq!(data.start_time(), Err(DataError::NoStartTime));
    assert!(data.iter_new_since(at(0)).is_empty());
    assert!(data.iter_dead_since(at(0)).is_empty());
}

#[test]
fn start_time_after_reset() {
    let data = started();
    assert_eq!(data.start_time(), Ok(Date { secs: 10, nanos: 0 }));
}

#[test]
fn reset_discards_allocations() {
    let mut data = started();
    assert!(data.add_diff(births(5, &[1, 2])).is_ok());
    assert!(data.add_diff(deaths(6, &[1])).is_ok());
    data.reset(AllocInit { start_time: Date { secs: 20, nanos: 5 } });
    assert!(data.iter_all().is_empty());
    assert!(data.iter_dead_since(at(0)).is_empty());
    assert_eq!(data.current_time(), at(0));
    assert_eq!(data.start_time(), Ok(Date { secs: 20, nanos: 5 }));
    assert_eq!(data.get_alloc(uid(1)).err(), Some(DataError::UnknownUid(uid(1))));
    assert!(data.add_diff(births(1, &[1])).is_ok());
}

#[test]
fn batch_time_overrides_embedded_times() {
    let mut data = started();
    let diff = AllocDiff { time: at(100), new: vec![live(1, 7), dead(2, 8, 9)], dead: vec![] };
    assert!(data.add_diff(diff).is_ok());
    assert_eq!(data.current_time(), at(100));
    let first = *data.get_alloc(uid(1)).unwrap();
    assert_eq!(first.toc, at(100));
    assert_eq!(first.tod, None);
    assert_eq!(first.size, 8);
    let second = *data.get_alloc(uid(2)).unwrap();
    assert_eq!(second.toc, at(100));
    assert_eq!(second.tod, Some(at(100)));
    let groups = data.iter_dead_since(at(99));
    assert_eq!(groups.len(), 1);
    assert_eq!(groups[0].time, at(100));
    assert_eq!(sorted_ids(&groups[0].uids), vec![2]);
}

#[test]
fn approximate_time_of_death_is_overridden() {
    let mut data = started();
    assert!(data.add_diff(births(10, &[1])).is_ok());
    let diff = AllocDiff { time: at(30), new: vec![], dead: vec![(uid(1), at(25))] };
    assert!(data.add_diff(diff).is_ok());
    assert_eq!(data.get_alloc(uid(1)).unwrap().tod, Some(at(30)));
}

#[test]
fn known_uid_collides() {
    let mut data = started();
    assert!(data.add_diff(births(10, &[1, 2])).is_ok());
    let res = data.add_diff(AllocDiff { time: at(20), new: vec![live(3, 0), live(2, 0)], dead: vec![] });
    assert_eq!(res, Err(DataError::UidCollision(uid(2))));
    assert!(res.unwrap_err().is_collision());
    assert_eq!(uids_of(data.iter_all()), vec![1, 2]);
    assert_eq!(data.get_alloc(uid(2)).unwrap().toc, at(10));
    assert_eq!(data.current_time(), at(10));
}

#[test]
fn twin_uids_in_one_batch_collide() {
    let mut data = started();
    let res = data.add_diff(births(10, &[4, 4]));
    assert_eq!(res, Err(DataError::UidCollision(uid(4))));
    assert!(data.iter_all().is_empty());
}

#[test]
fn dead_newcomer_collides_with_death_at_the_same_time() {
    let mut data = started();
    assert!(data.add_diff(AllocDiff { time: at(10), new: vec![dead(1, 0, 0)], dead: vec![] }).is_ok());
    let res = data.add_diff(AllocDiff { time: at(10), new: vec![dead(1, 0, 0)], dead: vec![] });
    assert_eq!(res, Err(DataError::DeadUidCollision(uid(1))));
    let other_time = data.add_diff(AllocDiff { time: at(11), new: vec![dead(1, 0, 0)], dead: vec![] });
    assert_eq!(other_time, Err(DataError::UidCollision(uid(1))));
    let live_one = data.add_diff(AllocDiff { time: at(10), new: vec![live(1, 0)], dead: vec![] });
    assert_eq!(live_one, Err(DataError::UidCollision(uid(1))));
    assert_eq!(uids_of(data.iter_all()), vec![1]);
}

#[test]
fn second_death_collides() {
    let mut data = started();
    assert!(data.add_diff(births(10, &[1])).is_ok());
    assert!(data.add_diff(deaths(20, &[1])).is_ok());
    assert_eq!(data.add_diff(deaths(30, &[1])), Err(DataError::DeathCollision(uid(1))));
    assert_eq!(data.add_diff(deaths(20, &[1])), Err(DataError::DeathCollision(uid(1))));
    assert_eq!(data.get_alloc(uid(1)).unwrap().tod, Some(at(20)));
    assert_eq!(data.current_time(), at(20));
    assert_eq!(data.iter_dead_since(at(0)).len(), 1);
}

#[test]
fn death_twice_in_one_batch_collides() {
    let mut data = started();
    assert!(data.add_diff(births(10, &[1])).is_ok());
    assert_eq!(data.add_diff(deaths(20, &[1, 1])), Err(DataError::DeathCollision(uid(1))));
    assert_eq!(data.get_alloc(uid(1)).unwrap().tod, None);
    assert!(data.iter_dead_since(at(0)).is_empty());
}

#[test]
fn unknown_death_is_rejected() {
    let mut data = started();
    assert!(data.add_diff(births(10, &[1])).is_ok());
    let res = data.add_diff(deaths(20, &[9]));
    assert_eq!(res, Err(DataError::UnknownDeath(uid(9))));
    assert!(res.unwrap_err().is_lookup());
    assert!(!res.unwrap_err().is_collision());
    assert_eq!(uids_of(data.iter_all()), vec![1]);
    assert_eq!(data.get_alloc(uid(1)).unwrap().tod, None);
    assert!(data.iter_dead_since(at(0)).is_empty());
    assert_eq!(data.current_time(), at(10));
}

#[test]
fn rejected_batch_changes_nothing() {
    let mut data = started();
    assert!(data.add_diff(births(10, &[1, 2])).is_ok());
    let diff = AllocDiff { time: at(20), new: vec![live(3, 0)], dead: vec![(uid(1), at(0)), (uid(7), at(0))] };
    assert_eq!(data.add_diff(diff), Err(DataError::UnknownDeath(uid(7))));
    assert_eq!(uids_of(data.iter_all()), vec![1, 2]);
    assert_eq!(data.get_alloc(uid(1)).unwrap().tod, None);
    assert_eq!(data.get_alloc(uid(3)).err(), Some(DataError::UnknownUid(uid(3))));
    assert!(data.iter_dead_since(at(0)).is_empty());
    assert_eq!(data.current_time(), at(10));
}

#[test]
fn newcomer_can_die_in_its_own_batch() {
    let mut data = started();
    let diff = AllocDiff { time: at(20), new: vec![live(3, 0)], dead: vec![(uid(3), at(0))] };
    assert!(data.add_diff(diff).is_ok());
    assert_eq!(data.get_alloc(uid(3)).unwrap().tod, Some(at(20)));
}

#[test]
fn dead_newcomer_cannot_die_again_in_its_batch() {
    let mut data = started();
    let diff = AllocDiff { time: at(20), new: vec![dead(3, 0, 0)], dead: vec![(uid(3), at(0))] };
    assert_eq!(data.add_diff(diff), Err(DataError::DeathCollision(uid(3))));
    assert!(data.iter_all().is_empty());
}

#[test]
fn births_before_the_latest_break_the_order() {
    let mut data = started();
    assert!(data.add_diff(births(10, &[1])).is_ok());
    let res = data.add_diff(births(5, &[2]));
    assert_eq!(res, Err(DataError::TocOrder));
    assert!(res.unwrap_err().is_invariant());
    assert!(!res.unwrap_err().is_collision());
    assert_eq!(uids_of(data.iter_all()), vec![1]);
    assert_eq!(data.current_time(), at(10));
    assert!(data.add_diff(births(10, &[3])).is_ok());
}

#[test]
fn earlier_batch_of_deaths_is_accepted() {
    let mut data = started();
    assert!(data.add_diff(births(10, &[1, 2])).is_ok());
    assert!(data.add_diff(deaths(30, &[1])).is_ok());
    assert!(data.add_diff(deaths(20, &[2])).is_ok());
    assert_eq!(data.current_time(), at(20));
    let groups = data.iter_dead_since(at(0));
    assert_eq!(groups.len(), 2);
    assert_eq!(groups[0].time, at(30));
    assert_eq!(sorted_ids(&groups[0].uids), vec![1]);
    assert_eq!(groups[1].time, at(20));
    assert_eq!(sorted_ids(&groups[1].uids), vec![2]);
}

#[test]
fn order_of_creation_holds_after_every_batch() {
    let mut data = started();
    let batches = vec![
        births(10, &[1, 2]),
        births(10, &[3]),
        births(5, &[4]),
        deaths(7, &[1]),
        births(20, &[5, 2]),
        births(20, &[6]),
        deaths(25, &[9]),
        births(30, &[7]),
    ];
    for diff in batches {
        let _ = data.add_diff(diff);
        let allocs = data.iter_all();
        for pair in allocs.windows(2) {
            assert!(pair[0].toc.as_nanos() <= pair[1].toc.as_nanos());
        }
        assert!(uid_order_is_toc_order(&data).is_ok());
    }
    assert_eq!(uids_of(data.iter_all()), vec![1, 2, 3, 6, 7]);
}

#[test]
fn new_since_walks_back_to_the_threshold() {
    let mut data = started();
    assert!(data.add_diff(births(10, &[1])).is_ok());
    assert!(data.add_diff(births(20, &[2, 3])).is_ok());
    assert!(data.add_diff(births(30, &[4])).is_ok());
    assert!(data.add_diff(deaths(40, &[4])).is_ok());
    assert_eq!(uids_of(&data.iter_new_since(at(15))), vec![4, 3, 2]);
    assert_eq!(uids_of(&data.iter_new_since(at(20))), vec![4]);
    assert_eq!(uids_of(&data.iter_new_since(at(19))), vec![4, 3, 2]);
    assert_eq!(uids_of(&data.iter_new_since(at(0))), vec![4, 3, 2, 1]);
    assert_eq!(uids_of(&data.iter_new_since(at(9))), vec![4, 3, 2, 1]);
    assert_eq!(uids_of(&data.iter_new_since(at(10))), vec![4, 3, 2]);
    assert!(data.iter_new_since(at(30)).is_empty());
    assert!(data.iter_new_since(at(31)).is_empty());
    assert_eq!(data.iter_new_since(at(20))[0].tod, Some(at(40)));
    assert_eq!(uids_of(data.iter_all()), vec![1, 2, 3, 4]);
}

#[test]
fn dead_since_groups_deaths_by_time() {
    let mut data = started();
    assert!(data.add_diff(births(10, &[1, 2, 3, 4])).is_ok());
    assert!(data.add_diff(deaths(50, &[1, 2])).is_ok());
    assert!(data.add_diff(deaths(70, &[3])).is_ok());
    let all = data.iter_dead_since(at(40));
    assert_eq!(all.len(), 2);
    assert_eq!(all[0].time, at(70));
    assert_eq!(sorted_ids(&all[0].uids), vec![3]);
    assert_eq!(all[1].time, at(50));
    assert_eq!(sorted_ids(&all[1].uids), vec![1, 2]);
    assert_eq!(all[1].uids.len(), 2);
    let late = data.iter_dead_since(at(50));
    assert_eq!(late.len(), 1);
    assert_eq!(late[0].time, at(70));
    assert_eq!(data.iter_dead_since(at(69)).len(), 1);
    assert!(data.iter_dead_since(at(70)).is_empty());
    assert_eq!(data.iter_dead_since(at(49)).len(), 2);
}

#[test]
fn unknown_uid_lookup_fails() {
    let mut data = started();
    assert!(data.add_diff(births(10, &[1])).is_ok());
    assert_eq!(data.get_alloc(uid(2)).err(), Some(DataError::UnknownUid(uid(2))));
    assert_eq!(data.get_alloc(uid(1)).unwrap().uid, uid(1));
}

#[test]
fn rejected_batch_is_logged() {
    let mut data = started();
    assert!(add_diff(&mut data, births(10, &[7])).is_ok());
    assert!(data.errors().is_empty());
    assert_eq!(add_diff(&mut data, births(20, &[7])), Err(DataError::UidCollision(uid(7))));
    assert_eq!(add_diff(&mut data, deaths(20, &[12])), Err(DataError::UnknownDeath(uid(12))));
    assert_eq!(
        data.errors().clone(),
        vec![
            String::from("allocation UID collision (2): two allocations have UID #7"),
            String::from("cannot register death for unknown allocation UID #12"),
        ]
    );
    assert_eq!(uids_of(data.iter_all()), vec![7]);
    assert_eq!(data.current_time(), at(10));
    assert!(add_diff(&mut data, deaths(20, &[7])).is_ok());
    assert_eq!(data.current_time(), at(20));
    assert_eq!(data.errors().len(), 2);
}

#[test]
fn errors_are_kept_in_order() {
    let mut data = Data::new();
    add_err(&mut data, String::from("first"));
    data.add_err(String::from("second"));
    assert_eq!(data.errors().clone(), vec![String::from("first"), String::from("second")]);
    data.reset(AllocInit { start_time: Date { secs: 0, nanos: 0 } });
    assert_eq!(data.errors().len(), 2);
}

#[test]
fn error_messages() {
    assert_eq!(
        DataError::DeadUidCollision(uid(3)).message(),
        "allocation UID collision (1): two allocations have UID #3"
    );
    assert_eq!(
        DataError::UidCollision(uid(40)).message(),
        "allocation UID collision (2): two allocations have UID #40"
    );
    assert_eq!(
        DataError::DeathCollision(uid(105)).message(),
        "allocation UID collision (3): two allocations have UID #105"
    );
    assert_eq!(
        DataError::UnknownDeath(uid(0)).message(),
        "cannot register death for unknown allocation UID #0"
    );
    assert_eq!(DataError::UnknownUid(uid(9)).message(), "unknown allocation UID #9");
    assert_eq!(DataError::NoStartTime.message(), "cannot access start time");
    assert_eq!(
        DataError::TocOrder.message(),
        "[data::invariants::uid_order_is_toc_order] invariant does not hold"
    );
}

#[test]
fn error_kinds() {
    assert!(DataError::DeadUidCollision(uid(1)).is_collision());
    assert!(DataError::UidCollision(uid(1)).is_collision());
    assert!(DataError::DeathCollision(uid(1)).is_collision());
    assert!(DataError::UnknownDeath(uid(1)).is_lookup());
    assert!(DataError::UnknownUid(uid(1)).is_lookup());
    assert!(DataError::NoStartTime.is_lookup());
    assert!(DataError::TocOrder.is_invariant());
    assert!(!DataError::TocOrder.is_lookup());
    assert!(!DataError::UnknownUid(uid(1)).is_invariant());
}

#[test]
fn decimal_text() {
    assert_eq!(decimal_string(0), "0");
    assert_eq!(decimal_string(7), "7");
    assert_eq!(decimal_string(10), "10");
    assert_eq!(decimal_string(1234567890), "1234567890");
    assert_eq!(decimal_string(u64::MAX), "18446744073709551615");
}

#[test]
fn uid_set_holds_each_uid_once() {
    let mut set = AllocUidSet::new();
    assert!(set.is_empty());
    assert_eq!(set.len(), 0);
    assert!(set.insert(uid(3)));
    assert!(set.insert(uid(1)));
    assert!(!set.insert(uid(3)));
    assert_eq!(set.len(), 2);
    assert!(set.contains(uid(1)));
    assert!(!set.contains(uid(2)));
    assert_eq!(sorted_ids(&set), vec![1, 3]);
    assert_eq!(sorted_ids(&set.duplicate()), vec![1, 3]);
    assert!(!set.is_empty());
    assert!(!set.remove(uid(2)));
    assert!(set.remove(uid(3)));
    assert!(!set.remove(uid(3)));
    assert_eq!(sorted_ids(&set), vec![1]);
    assert!(set.remove(uid(1)));
    assert!(set.is_empty());
}

#[test]
fn deaths_by_time() {
    let mut map = TodMap::new();
    assert!(!map.contains(at(5), uid(1)));
    assert!(map.insert(at(5), uid(1)));
    assert!(map.insert(at(3), uid(2)));
    assert!(map.insert(at(9), uid(3)));
    assert!(map.insert(at(5), uid(4)));
    assert!(!map.insert(at(5), uid(1)));
    assert!(map.contains(at(5), uid(4)));
    assert!(!map.contains(at(3), uid(4)));
    let times: Vec<u64> = map.since(at(0)).iter().map(|group| group.time.as_nanos()).collect();
    assert_eq!(times, vec![9, 5, 3]);
    assert_eq!(sorted_ids(&map.since(at(3))[1].uids), vec![1, 4]);
    assert_eq!(map.since(at(5)).len(), 1);
    assert!(!map.remove(at(4), uid(1)));
    assert!(!map.remove(at(5), uid(2)));
    assert!(map.remove(at(5), uid(1)));
    assert_eq!(sorted_ids(&map.since(at(3))[1].uids), vec![4]);
    assert!(map.remove(at(5), uid(4)));
    let left: Vec<u64> = map.since(at(0)).iter().map(|group| group.time.as_nanos()).collect();
    assert_eq!(left, vec![9, 3]);
    map.clear();
    assert!(map.since(at(0)).is_empty());
}

#[test]
fn batch_that_breaks_the_order_is_taken_back() {
    let mut data = started();
    assert!(data.add_diff(births(10, &[1])).is_ok());
    let diff = AllocDiff { time: at(5), new: vec![live(2, 0), dead(3, 0, 0)], dead: vec![(uid(1), at(0))] };
    assert_eq!(data.add_diff(diff), Err(DataError::TocOrder));
    assert_eq!(uids_of(data.iter_all()), vec![1]);
    assert_eq!(data.get_alloc(uid(1)).unwrap().tod, None);
    assert_eq!(data.get_alloc(uid(2)).err(), Some(DataError::UnknownUid(uid(2))));
    assert_eq!(data.get_alloc(uid(3)).err(), Some(DataError::UnknownUid(uid(3))));
    assert!(data.iter_dead_since(at(0)).is_empty());
    assert_eq!(data.current_time(), at(10));
    let again = AllocDiff { time: at(12), new: vec![live(2, 0), dead(3, 0, 0)], dead: vec![(uid(1), at(0))] };
    assert!(data.add_diff(again).is_ok());
    assert_eq!(uids_of(data.iter_all()), vec![1, 2, 3]);
    assert_eq!(data.get_alloc(uid(1)).unwrap().tod, Some(at(12)));
    assert_eq!(data.get_alloc(uid(2)).unwrap().tod, None);
    assert_eq!(data.get_alloc(uid(3)).unwrap().tod, Some(at(12)));
    let groups = data.iter_dead_since(at(0));
    assert_eq!(groups.len(), 1);
    assert_eq!(sorted_ids(&groups[0].uids), vec![1, 3]);
}

#[test]
fn deaths_of_a_rejected_batch_are_taken_back() {
    let mut data = started();
    assert!(data.add_diff(births(10, &[1, 2, 3])).is_ok());
    assert!(data.add_diff(deaths(20, &[3])).is_ok());
    let diff = AllocDiff {
        time: at(20),
        new: vec![dead(4, 0, 0), live(5, 0)],
        dead: vec![(uid(1), at(0)), (uid(5), at(0)), (uid(2), at(0)), (uid(3), at(0))],
    };
    assert_eq!(data.add_diff(diff), Err(DataError::DeathCollision(uid(3))));
    assert_eq!(uids_of(data.iter_all()), vec![1, 2, 3]);
    assert_eq!(data.get_alloc(uid(1)).unwrap().tod, None);
    assert_eq!(data.get_alloc(uid(2)).unwrap().tod, None);
    assert_eq!(data.get_alloc(uid(3)).unwrap().tod, Some(at(20)));
    let groups = data.iter_dead_since(at(0));
    assert_eq!(groups.len(), 1);
    assert_eq!(groups[0].time, at(20));
    assert_eq!(sorted_ids(&groups[0].uids), vec![3]);
    assert!(data.add_diff(deaths(30, &[1, 2])).is_ok());
    assert!(data.add_diff(births(30, &[4, 5])).is_ok());
    assert_eq!(uids_of(data.iter_all()), vec![1, 2, 3, 4, 5]);
}

#[test]
fn stamping_and_dying() {
    let mut alloc = dead(1, 5, 6);
    alloc.stamp(at(9));
    assert_eq!(alloc, dead(1, 9, 9));
    let mut other = live(2, 5);
    other.stamp(at(9));
    assert_eq!(other, live(2, 9));
    assert!(other.set_tod(at(12)));
    assert_eq!(other.tod, Some(at(12)));
    assert!(!other.set_tod(at(13)));
    assert_eq!(other.tod, Some(at(12)));
}
