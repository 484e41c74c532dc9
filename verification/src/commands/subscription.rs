//! Changes to the list of subscriptions: adding, removing, pausing, and setting the
//! quality and the group of one. Loading and saving the list, and asking yt-dlp about
//! a channel, are done by the caller.

use vstd::prelude::*;
use vstd::string::*;

use crate::error::AppError;
use crate::find::{first_where, lemma_first_where_none, lemma_first_where_some};
use crate::models::{DownloadRecord, Subscription};
use crate::models::subscription::{default_group, default_quality};
use crate::services::download_queue::has_subscription_id;
use crate::services::ytdlp::ChannelInfo;
use crate::text::str_eq;

verus! {

/// Some subscription has URL `url`.
pub open spec fn is_subscribed(subs: Seq<Subscription>, url: Seq<char>) -> bool {
    exists|i: int| 0 <= i < subs.len() && (#[trigger] subs[i]).url@ == url
}

/// Refuses a URL that is subscribed already.
pub fn ensure_not_subscribed(subs: &Vec<Subscription>, url: &str) -> (r: Result<(), AppError>)
    ensures
        is_subscribed(subs@, url@) ==> (r matches Err(AppError::Duplicate(m)) && m@
            == "Already subscribed to: "@ + url@),
        !is_subscribed(subs@, url@) ==> r is Ok,
{
    let mut i: usize = 0;
    while i < subs.len()
        invariant
            i <= subs@.len(),
            forall|j: int| 0 <= j < i ==> (#[trigger] subs@[j]).url@ != url@,
        decreases subs@.len() - i,
    {
        if str_eq(subs[i].url.as_str(), url) {
            let mut m = String::from_str("Already subscribed to: ");
            m.append(url);
            return Err(AppError::Duplicate(m));
        }
        i += 1;
    }
    Ok(())
}

/// A new subscription of `url` with what yt-dlp reported of its channel.
pub fn subscription_from_channel(url: String, info: ChannelInfo) -> (s: Subscription)
    ensures
        s.id@.len() == 36,
        s.url == url,
        s.platform == info.platform,
        s.channel_name == info.channel_name,
        s.channel_avatar_url == info.channel_avatar_url,
        !s.paused,
        s.quality_preset@ == default_quality(),
        s.group_name@ == default_group(),
        s.last_checked_at is None,
        s.download_count == 0,
        s.last_check_status is None,
        s.last_check_error is None,
        s.tags@.len() == 0,
        s.health_status is None,
        s.last_health_check is None,
{
    Subscription::new(url, info.platform, info.channel_name, info.channel_avatar_url)
}

fn find_by_id(subs: &Vec<Subscription>, id: &str) -> (r: Option<usize>)
    ensures
        match r {
            Some(p) => first_where(subs@, has_subscription_id(id@)) == Some(p as int),
            None => first_where(subs@, has_subscription_id(id@)) is None,
        },
{
    let ghost pred = has_subscription_id(id@);
    let mut p: usize = 0;
    while p < subs.len()
        invariant
            pred == has_subscription_id(id@),
            p <= subs@.len(),
            forall|q: int| 0 <= q < p ==> !pred(#[trigger] subs@[q]),
        decreases subs@.len() - p,
    {
        if str_eq(subs[p].id.as_str(), id) {
            proof {
                lemma_first_where_some(subs@, pred, p as int);
            }
            return Some(p);
        }
        p += 1;
    }
    proof {
        lemma_first_where_none(subs@, pred);
    }
    None
}

/// "Subscription not found: <id>".
pub open spec fn missing_subscription(id: Seq<char>) -> Seq<char> {
    "Subscription not found: "@ + id
}

fn not_found(id: &str) -> (e: AppError)
    ensures
        e matches AppError::NotFound(m) && m@ == missing_subscription(id@),
{
    let mut m = String::from_str("Subscription not found: ");
    m.append(id);
    AppError::NotFound(m)
}

/// Removes the first subscription with id `id` and returns it; fails with "not
/// found", leaving the list as it was, when there is none.
pub fn remove_subscription(subs: &mut Vec<Subscription>, id: &str) -> (r: Result<Subscription, AppError>)
    ensures
        match first_where(old(subs)@, has_subscription_id(id@)) {
            Some(p) => final(subs)@ == old(subs)@.remove(p) && r == Ok::<Subscription, AppError>(
                old(subs)@[p],
            ),
            None => final(subs)@ == old(subs)@ && (r matches Err(AppError::NotFound(m)) && m@
                == missing_subscription(id@)),
        },
{
    match find_by_id(subs, id) {
        Some(p) => Ok(subs.remove(p)),
        None => Err(not_found(id)),
    }
}

/// Drops the download records of subscription `id`, keeping the others in order.
pub fn remove_records_of(records: &mut Vec<DownloadRecord>, id: &str)
    ensures
        final(records)@ == old(records)@.filter(|r: DownloadRecord| r.subscription_id@ != id@),
{
    let ghost pred = |r: DownloadRecord| r.subscription_id@ != id@;
    let ghost src = records@;
    let total = records.len();
    let mut rest: Vec<DownloadRecord> = Vec::new();
    while records.len() > 0
        invariant
            records@.len() + rest@.len() == src.len(),
            forall|k: int| 0 <= k < records@.len() ==> #[trigger] records@[k] == src[k],
            forall|j: int| 0 <= j < rest@.len() ==> #[trigger] rest@[j] == src[src.len() - 1 - j],
        decreases records@.len(),
    {
        let r = records.pop().unwrap();
        rest.push(r);
    }
    let mut i: usize = 0;
    while rest.len() > 0
        invariant
            pred == (|r: DownloadRecord| r.subscription_id@ != id@),
            i + rest@.len() == src.len(),
            src.len() == total,
            forall|j: int| 0 <= j < rest@.len() ==> #[trigger] rest@[j] == src[src.len() - 1 - j],
            records@ == src.take(i as int).filter(pred),
        decreases rest@.len(),
    {
        let r = rest.pop().unwrap();
        assert(src.take(i + 1).drop_last() =~= src.take(i as int));
        reveal(Seq::filter);
        if !str_eq(r.subscription_id.as_str(), id) {
            records.push(r);
        }
        i += 1;
    }
    assert(src.take(i as int) =~= src);
}

/// Flips whether the first subscription with id `id` is paused and returns its
/// position; fails with "not found", leaving the list as it was, when there is none.
pub fn toggle_pause(subs: &mut Vec<Subscription>, id: &str) -> (r: Result<usize, AppError>)
    ensures
        match first_where(old(subs)@, has_subscription_id(id@)) {
            Some(p) => r == Ok::<usize, AppError>(p as usize) && final(subs)@ == old(subs)@.update(
                p,
                (Subscription { paused: !old(subs)@[p].paused, ..old(subs)@[p] }),
            ),
            None => final(subs)@ == old(subs)@ && (r matches Err(AppError::NotFound(m)) && m@
                == missing_subscription(id@)),
        },
{
    match find_by_id(subs, id) {
        Some(p) => {
            let v = subs[p].paused;
            subs[p].paused = !v;
            Ok(p)
        },
        None => Err(not_found(id)),
    }
}

/// Sets the quality preset of the first subscription with id `id` and returns its
/// position; fails with "not found", leaving the list as it was, when there is none.
pub fn set_quality(subs: &mut Vec<Subscription>, id: &str, quality_preset: String) -> (r: Result<
    usize,
    AppError,
>)
    ensures
        match first_where(old(subs)@, has_subscription_id(id@)) {
            Some(p) => r == Ok::<usize, AppError>(p as usize) && final(subs)@ == old(subs)@.update(
                p,
                (Subscription { quality_preset, ..old(subs)@[p] }),
            ),
            None => final(subs)@ == old(subs)@ && (r matches Err(AppError::NotFound(m)) && m@
                == missing_subscription(id@)),
        },
{
    match find_by_id(subs, id) {
        Some(p) => {
            subs[p].quality_preset = quality_preset;
            Ok(p)
        },
        None => Err(not_found(id)),
    }
}

/// The groups a subscription can be put in.
pub open spec fn valid_groups() -> Seq<Seq<char>> {
    seq!["未分组"@, "学习"@, "娱乐"@, "音乐"@, "科技"@, "其他"@]
}

/// Whether `name` is one of the valid groups.
pub fn is_valid_group(name: &str) -> (r: bool)
    ensures
        r == valid_groups().contains(name@),
{
    let r = str_eq(name, "未分组") || str_eq(name, "学习") || str_eq(name, "娱乐") || str_eq(name, "音乐")
        || str_eq(name, "科技") || str_eq(name, "其他");
    proof {
        let g = valid_groups();
        if r {
            if name@ == "未分组"@ { assert(g[0] == name@); }
            if name@ == "学习"@ { assert(g[1] == name@); }
            if name@ == "娱乐"@ { assert(g[2] == name@); }
            if name@ == "音乐"@ { assert(g[3] == name@); }
            if name@ == "科技"@ { assert(g[4] == name@); }
            if name@ == "其他"@ { assert(g[5] == name@); }
        }
    }
    r
}

/// Puts the first subscription with id `id` in group `group_name` and returns its
/// position. Fails, leaving the list as it was, when the group is not a valid one or
/// no subscription has that id.
pub fn set_group(subs: &mut Vec<Subscription>, id: &str, group_name: String) -> (r: Result<usize, String>)
    ensures
        !valid_groups().contains(group_name@) ==> final(subs)@ == old(subs)@ && (r matches Err(m)
            && m@ == "无效的分组名称: "@ + group_name@ + "。有效分组: 未分组、学习、娱乐、音乐、科技、其他"@),
        valid_groups().contains(group_name@) ==> match first_where(old(subs)@, has_subscription_id(id@)) {
            Some(p) => r == Ok::<usize, String>(p as usize) && final(subs)@ == old(subs)@.update(
                p,
                (Subscription { group_name, ..old(subs)@[p] }),
            ),
            None => final(subs)@ == old(subs)@ && (r matches Err(m) && m@ == "订阅不存在: "@ + id@),
        },
{
    if !is_valid_group(group_name.as_str()) {
        let mut m = String::from_str("无效的分组名称: ");
        m.append(group_name.as_str());
        m.append("。有效分组: 未分组、学习、娱乐、音乐、科技、其他");
        return Err(m);
    }
    match find_by_id(subs, id) {
        Some(p) => {
            subs[p].group_name = group_name;
            Ok(p)
        },
        None => {
            let mut m = String::from_str("订阅不存在: ");
            m.append(id);
            Err(m)
        },
    }
}

} // verus!
