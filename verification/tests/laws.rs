use wgg::jumbo::config::{build_map, Config as JumboConfig};
use wgg::jumbo::error::ApiError as JumboApiError;
use wgg::picnic::config::{Config as PicnicConfig, CountryCode, PicnicDetails};
use wgg::picnic::credentials::{
    login_request, password_secret, Credentials, CredentialsCache, JsonFileCache, MemoryCache,
};
use wgg::picnic::error::ApiError as PicnicApiError;
use wgg::picnic::images::image_url;
use wgg::picnic::models::ImageSize;
use wgg::providers::error::{ProviderError, SubProviderError};
use wgg::providers::models::{Provider, WggSearchProduct};
use wgg::providers::pagination::OffsetPagination;
use wgg::providers::wgg_provider::{
    active_providers, find_provider, get_default_provider_map, merge_search_results, ProvidersIter,
};
use wgg::sale_resolver::{CacheAction, CacheEntry, PromoCacheEntry, SaleIndex, SaleInfo};
use wgg::scheduler::error::ScheduleError;
use wgg::scheduler::job::Job;
use wgg::scheduler::runner::{JobWrapper, Messages, RunnerJobQueue, RunnerState};
use wgg::scheduler::schedule::Schedule;
use std::sync::Arc;

// ** Cache actions **

#[test]
fn combine_reconciles_when_either_asks() {
    assert_eq!(CacheAction::ReconcileCache.combine(CacheAction::Nothing), CacheAction::ReconcileCache);
    assert_eq!(CacheAction::Nothing.combine(CacheAction::ReconcileCache), CacheAction::ReconcileCache);
    assert_eq!(CacheAction::ReconcileCache.combine(CacheAction::ReconcileCache), CacheAction::ReconcileCache);
    assert_eq!(CacheAction::Nothing.combine(CacheAction::Nothing), CacheAction::Nothing);
}

#[test]
fn combine_is_commutative_and_associative() {
    let all = [CacheAction::ReconcileCache, CacheAction::Nothing];
    for a in all {
        for b in all {
            assert_eq!(a.combine(b), b.combine(a));
            for c in all {
                assert_eq!(a.combine(b).combine(c), a.combine(b.combine(c)));
            }
        }
    }
}

#[test]
fn promo_entry_expires_after_its_expiry() {
    let entry = PromoCacheEntry { item: 5u32, inserted_at: 10, expires: 100 };
    assert!(!entry.is_expired_at(100));
    assert!(entry.is_expired_at(101));
}

#[test]
fn cache_entry_valid_within_ttl() {
    assert_eq!(CacheEntry::new("a", 1000).get_if_valid_at(60, 1059), Some("a"));
    assert_eq!(CacheEntry::new("a", 1000).get_if_valid_at(60, 1060), None);
}

// ** The sale index **

fn ids(v: &[&str]) -> Vec<String> {
    v.iter().map(|s| s.to_string()).collect()
}

#[test]
fn rebuilt_index_finds_listed_products() {
    let mut index = SaleIndex::new();
    assert!(!index.are_valid());
    index.insert_sale("s1".to_string(), SaleInfo::new(1, 2, ids(&["p1", "p2"])));
    index.insert_sale("s2".to_string(), SaleInfo::new(3, 4, ids(&["p2", "p3"])));
    index.rebuild_inverted();
    assert!(index.are_valid());

    assert_eq!(index.get_sale_sublist_id("p1"), Some("s1".to_string()));
    // The last sale that lists a product wins.
    assert_eq!(index.get_sale_sublist_id("p2"), Some("s2".to_string()));
    assert_eq!(index.get_sale_sublist_id("p4"), None);
    assert!(index.is_part_of_sale("p3"));
    assert!(!index.is_part_of_sale("p4"));

    let info = index.get_sale_info("p3").unwrap();
    assert_eq!(info.valid_from(), 3);
    assert_eq!(info.valid_until(), 4);
    assert_eq!(info.item_ids(), &ids(&["p2", "p3"]));
}

#[test]
fn removed_sublist_leaves_no_pointers() {
    let mut index = SaleIndex::new();
    index.insert_sale("s1".to_string(), SaleInfo::new(1, 2, ids(&["p1"])));
    index.insert_sale("s2".to_string(), SaleInfo::new(3, 4, ids(&["p2", "p3"])));
    index.rebuild_inverted();
    index.remove_sublist("s2");
    assert_eq!(index.get_sale_sublist_id("p2"), None);
    assert_eq!(index.get_sale_sublist_id("p3"), None);
    assert!(index.get_sublist_sale("s2").is_none());
    assert_eq!(index.get_sale_sublist_id("p1"), Some("s1".to_string()));
}

#[test]
fn inserting_a_sale_again_replaces_it() {
    let mut index = SaleIndex::new();
    index.insert_sale("s1".to_string(), SaleInfo::new(1, 2, ids(&["p1"])));
    index.insert_sale("s1".to_string(), SaleInfo::new(5, 6, ids(&["p9"])));
    let info = index.get_sublist_sale("s1").unwrap();
    assert_eq!(info.valid_from(), 5);
    assert_eq!(info.item_ids(), &ids(&["p9"]));
    index.clear();
    assert!(index.get_sublist_sale("s1").is_none());
}

// ** The scheduler **

#[test]
fn queue_takes_the_earliest_due_job() {
    let mut queue: RunnerJobQueue<&'static str> = RunnerJobQueue::new();
    let a = Job::new_at(Schedule::Interval(10), "a", 100).unwrap();
    let b = Job::new_at(Schedule::Interval(5), "b", 100).unwrap();
    assert_eq!(a.next_run(), 110);
    assert_eq!(b.next_run(), 105);
    queue.push(1, a);
    queue.push(2, b);

    assert!(queue.take_ready_job(104).is_none());
    let (id, job) = queue.take_ready_job(105).unwrap();
    assert_eq!(id, 2);
    assert_eq!(*job.function(), "b");
    // Busy jobs are not taken again.
    assert!(queue.take_ready_job(109).is_none());

    // A paused job leaves the queue until it is resumed.
    queue.pause_job(1);
    assert!(queue.take_ready_job(200).is_none());
    queue.unpause_job(1);
    let (id, _) = queue.take_ready_job(200).unwrap();
    assert_eq!(id, 1);

    // Requeueing makes a job available again; one that was removed comes back.
    assert!(queue.requeue_job(2, job).is_none());
    let removed = queue.remove(2).unwrap();
    assert!(queue.requeue_job(2, removed).is_some());
}

#[test]
fn rescheduling_moves_the_next_run() {
    let mut job = Job::new_at(Schedule::Interval(60), (), 1000).unwrap();
    assert_eq!(job.next_run(), 1060);
    assert!(job.is_pending(1061));
    assert!(!job.is_pending(1060));
    job.reschedule_at(1061).unwrap();
    assert_eq!(job.next_run(), 1121);
    job.set_paused(true);
    assert!(!job.is_pending(2000));
}

#[test]
fn wrapper_keeps_paused_state() {
    let job = Job::new_at(Schedule::Interval(1), 7u8, 0).unwrap();
    let mut w = JobWrapper::new(job);
    w.set_paused(true);
    let taken = w.make_busy();
    assert!(taken.is_some());
    assert!(w.is_paused());
    assert!(w.make_busy().is_none());
    w.make_available(taken.unwrap());
    assert!(w.is_paused());
    assert!(!w.is_pending(100));
}

#[test]
fn runner_handles_messages() {
    let backlog = vec![(9u128, Job::new_at(Schedule::Interval(1), 0u8, 0).unwrap())];
    let mut state = RunnerState::new(backlog, false);
    state.handle_msg(Messages::PauseScheduler);
    assert!(state.is_paused);
    state.handle_msg(Messages::ResumeScheduler);
    assert!(!state.is_paused);
    state.handle_msg(Messages::AddJob(3, Job::new_at(Schedule::Interval(50), 1u8, 0).unwrap()));
    let due = state.check_pending_jobs(10);
    assert_eq!(due.len(), 1);
    assert_eq!(due[0].0, 9);
    assert!(state.handle_msg(Messages::RemoveJob(3)).is_some());
    assert!(state.check_pending_jobs(1000).is_empty());
}

#[test]
fn schedule_errors() {
    assert!(matches!(Schedule::try_from_str("not a cron"), Err(ScheduleError::ParseError(_))));
    assert!(matches!(Schedule::try_from_str("0 0 9 * * * *"), Ok(Schedule::Periodic(_))));
    assert_eq!(Schedule::from_seconds(9_223_372_036_854_776), Err(ScheduleError::OutOfRange));
    assert_eq!(Schedule::from_seconds(30), Ok(Schedule::Interval(30)));
}

#[test]
fn cron_schedule_finds_next_time() {
    // Every day at 09:00:00 UTC; 1715000000 is 2024-05-06 12:53:20 UTC.
    let schedule = Schedule::try_from_str("0 0 9 * * * *").unwrap();
    assert_eq!(schedule.next(1715000000), Some(1715072400));
}

// ** Providers **

fn page(n: usize, total: usize, offset: u32) -> OffsetPagination<WggSearchProduct> {
    assert_eq!(n, 0);
    OffsetPagination { items: Vec::new(), total_items: total, offset }
}

#[test]
fn merged_results_sum_totals() {
    let merged = merge_search_results(vec![
        Ok(page(0, 3, 7)),
        Err(ProviderError::NothingFound),
        Ok(page(0, 4, 0)),
    ])
    .unwrap();
    assert_eq!(merged.total_items, 7);
    assert_eq!(merged.offset, 0);
    assert!(matches!(
        merge_search_results(vec![Err(ProviderError::NothingFound)]),
        Err(ProviderError::NothingFound)
    ));
}

#[test]
fn providers_in_order() {
    assert_eq!(active_providers(true), vec![Provider::Picnic, Provider::Jumbo]);
    assert_eq!(active_providers(false), vec![Provider::Jumbo]);
    assert_eq!(find_provider(Provider::Jumbo, false), Ok(Provider::Jumbo));
    assert_eq!(
        find_provider(Provider::Picnic, false),
        Err(ProviderError::ProviderUninitialised(Provider::Picnic))
    );
    let map: Vec<(Provider, u32)> = get_default_provider_map(&vec![Provider::Jumbo, Provider::Picnic]);
    assert_eq!(map, vec![(Provider::Jumbo, 0), (Provider::Picnic, 0)]);
}

#[test]
fn api_errors_become_provider_errors() {
    assert_eq!(
        ProviderError::from(PicnicApiError::LoginFailed("x".to_string())),
        ProviderError::SubProviderError(Provider::Picnic, SubProviderError::LoginFailed("x".to_string()))
    );
    assert_eq!(
        SubProviderError::from(PicnicApiError::EmptySearch),
        SubProviderError::PicnicMiscError(PicnicApiError::EmptySearch)
    );
    assert_eq!(
        ProviderError::from(JumboApiError::NotFound("/p".to_string())),
        ProviderError::SubProviderError(Provider::Jumbo, SubProviderError::NotFound("/p".to_string()))
    );
    assert_eq!(
        SubProviderError::from(JumboApiError::Other("boom".to_string())),
        SubProviderError::JumboMiscError(JumboApiError::Other("boom".to_string()))
    );
}

// ** Configuration and credentials **

#[test]
fn picnic_config_urls() {
    let config = PicnicConfig::default();
    assert_eq!(config.get_full_url("/cart"), "https://storefront-prod.nl.picnicinternational.com/api/17/cart");
    assert_eq!(config.static_url(), "https://storefront-prod.nl.picnicinternational.com/static");
    assert_eq!(config.picnic_agent(), None);
    let de = PicnicConfig::new(CountryCode::DE, 15, Some(PicnicDetails::default()));
    assert_eq!(de.url(), "https://storefront-prod.de.picnicinternational.com/api/15");
    assert_eq!(de.picnic_agent(), Some("30100;1.15.159;"));
    assert_eq!(CountryCode::NL.as_str(), "NL");
}

#[test]
fn picnic_details_agent() {
    let details = PicnicDetails::new("1".to_string(), "2.0.0".to_string());
    assert_eq!(details.picnic_agent, "1;2.0.0;");
}

#[test]
fn jumbo_config_urls() {
    let config = JumboConfig::default();
    assert_eq!(config.get_full_url("/categories"), "https://mobileapi.jumbo.com/v17/categories");
}

#[test]
fn query_map_keeps_last_values() {
    let map = build_map(vec![("a", Some("1")), ("b", None), ("a", Some("2")), ("c", Some("3"))]);
    assert_eq!(map, vec![("a", "2"), ("c", "3")]);
}

#[test]
fn image_urls() {
    assert_eq!(
        image_url("abc", ImageSize::Medium),
        "https://storefront-prod.nl.picnicinternational.com/static/images/abc/medium.png"
    );
    assert_eq!(
        image_url("x", ImageSize::ExtraLarge),
        "https://storefront-prod.nl.picnicinternational.com/static/images/x/extra-large.png"
    );
}

#[test]
fn login_secret_is_hex_md5() {
    assert_eq!(password_secret("password"), "5f4dcc3b5aa765d61d8327deb882cf99");
    let request = login_request(&PicnicConfig::default(), "me@example.com".to_string(), "password");
    assert_eq!(request.key, "me@example.com");
    assert_eq!(request.secret, "5f4dcc3b5aa765d61d8327deb882cf99");
    assert_eq!(request.client_id, "30100");
    assert_eq!(request.client_version, None);
}

#[test]
fn memory_cache_updates_token() {
    let mut cache = MemoryCache::new(None);
    assert_eq!(cache.request_credentials().unwrap(), None);
    cache.update_auth_token("t0".to_string()).unwrap();
    assert_eq!(cache.request_credentials().unwrap(), None);
    cache.persist_credentials(Arc::new(Credentials::new("t1".to_string(), "u".to_string()))).unwrap();
    cache.update_auth_token("t2".to_string()).unwrap();
    let creds = cache.request_credentials().unwrap().unwrap();
    assert_eq!(creds.auth_token, "t2");
    assert_eq!(creds.user_id, "u");
    assert_eq!(cache.request_2fa_code(), Err(PicnicApiError::NoSecondFactorCode));
}

#[test]
fn file_cache_keeps_path() {
    let cache = JsonFileCache::from_credentials("/tmp/creds.json".to_string(), None);
    assert_eq!(cache.cache_path(), "/tmp/creds.json");
    assert!(cache.credentials().is_none());
}

#[test]
fn rescheduled_interval_job_runs_later() {
    let mut job = Job::new(Schedule::from_seconds(60).unwrap(), ()).unwrap();
    let first = job.next_run();
    job.reschedule().unwrap();
    assert!(job.next_run() >= first);
    assert!(!job.is_paused());
}

#[test]
fn provider_names_parse() {
    assert_eq!("PICNIC".parse::<Provider>(), Ok(Provider::Picnic));
    assert_eq!("JUMBO".parse::<Provider>(), Ok(Provider::Jumbo));
    assert_eq!("jumbo".parse::<Provider>(), Err("Failed to parse provider jumbo".to_string()));
}

#[test]
fn providers_walk_gives_each_once_then_none() {
    let mut walk = ProvidersIter::new(true);
    assert_eq!(walk.next(), Some(Provider::Picnic));
    assert_eq!(walk.next(), Some(Provider::Jumbo));
    assert_eq!(walk.next(), None);
    assert_eq!(walk.next(), None);

    let mut walk = ProvidersIter::new(false);
    assert_eq!(walk.next(), Some(Provider::Jumbo));
    assert_eq!(walk.next(), None);
}
