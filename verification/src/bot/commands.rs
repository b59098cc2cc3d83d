//! The bot's `get_reminders` command: in a vault's channel, it lists the
//! reminders known for that vault.
use crate::config::destination::Destination;
use crate::config::vault::{trim_slashes, trim_slashes_chars, Vault};
use crate::config::Config;
use crate::file_scanner::time_reminder::model::{display_spec, ReminderKey, ReminderKeyView};
use crate::state::State;
use crate::text::{chars_of, string_from_chars, utf8_len};
use vstd::prelude::*;

pub mod get_reminders;

verus! {

/// The index of the first element of `s`, from `i` on, that satisfies `p`.
pub open spec fn first_from<T>(s: Seq<T>, p: spec_fn(T) -> bool, i: int) -> Option<int>
    decreases s.len() - i,
{
    if i < 0 || i >= s.len() {
        None
    } else if p(s[i]) {
        Some(i)
    } else {
        first_from(s, p, i + 1)
    }
}

pub proof fn lemma_first_from<T>(s: Seq<T>, p: spec_fn(T) -> bool, i: int)
    ensures
        first_from(s, p, i) matches Some(k) ==> i <= k < s.len() && p(s[k]),
    decreases s.len() - i,
{
    if 0 <= i < s.len() && !p(s[i]) {
        lemma_first_from(s, p, i + 1);
    }
}

/// The answer to someone who may not ask.
pub open spec fn refusal() -> Seq<char> {
    "Get the fuck out"@
}

/// The answer when no reminders are known for the vault yet.
pub open spec fn not_ready() -> Seq<char> {
    "reminders contained None, check back later"@
}

/// The vault whose destination is the one with channel id `channel_id`: the
/// first destination with that id, then the first vault that sends to it.
pub open spec fn channel_vault(c: Config, channel_id: u64) -> Option<int> {
    match first_from(c.destinations@, |e: (String, Destination)| e.1.id == channel_id, 0) {
        None => None,
        Some(d) => first_from(
            c.vaults@,
            |e: (String, Vault)| e.1.destination@ == c.destinations@[d].0@,
            0,
        ),
    }
}

/// The reminders known for the vault named `name`: the first entry so named.
pub open spec fn known_reminders(s: State, name: Seq<char>) -> Option<int> {
    first_from(s.reminders@, |e: (String, Vec<ReminderKey>)| e.0@ == name, 0)
}

/// Where a reminder's note lies, as listed: its path with the vault's root
/// folder taken off the front (when the path starts with it), and the `/`s
/// at both ends removed.
pub open spec fn listed_location(root: Seq<char>, path: Seq<char>) -> Seq<char> {
    trim_slashes(
        if root.len() <= path.len() && path.take(root.len() as int) == root {
            path.skip(root.len() as int)
        } else {
            path
        },
    )
}

/// A note's location is listed relative to the vault root: where the root
/// is a prefix of the path, whether or not it ends with `/`, the location is
/// the rest of the path with its `/`s trimmed at both ends; elsewhere it is
/// the whole path so trimmed.
pub proof fn law_location_relative_to_root(root: Seq<char>, rest: Seq<char>, path: Seq<char>)
    ensures
        listed_location(root, root + rest) == trim_slashes(rest),
        !(root.len() <= path.len() && path.take(root.len() as int) == root) ==> listed_location(root, path)
            == trim_slashes(path),
{
    assert((root + rest).take(root.len() as int) =~= root);
    assert((root + rest).skip(root.len() as int) =~= rest);
}

/// One reminder as listed.
pub open spec fn reminder_entry(root: Seq<char>, k: ReminderKeyView) -> Seq<char> {
    "- time: "@ + display_spec(k.time_parts) + "\n  location: "@ + listed_location(root, k.file_path)
        + "\n  msg: `"@ + k.msg + "`"@
}

/// The listing: the entries, one line break between two.
pub open spec fn listing(root: Seq<char>, ks: Seq<ReminderKeyView>) -> Seq<char>
    decreases ks.len(),
{
    if ks.len() == 0 {
        seq![]
    } else if ks.len() == 1 {
        reminder_entry(root, ks[0])
    } else {
        listing(root, ks.drop_last()) + seq!['\n'] + reminder_entry(root, ks.last())
    }
}

/// The answer to `get_reminders`.
#[derive(Debug)]
pub enum RemindersReply {
    /// A plain answer.
    Say(String),
    /// The reminders, their listing, and whether the listing is short enough
    /// (2000 bytes at most) to be the answer's text; it is attached either
    /// way.
    Listing { reminders: Vec<ReminderKey>, text: String, inline: bool },
}

fn find_channel_vault(config: &Config, channel_id: u64) -> (r: Option<usize>)
    ensures
        match r {
            Some(i) => channel_vault(*config, channel_id) == Some(i as int),
            None => channel_vault(*config, channel_id) is None,
        },
{
    let ghost pd = |e: (String, Destination)| e.1.id == channel_id;
    let mut d: usize = 0;
    while d < config.destinations.len() && config.destinations[d].1.id != channel_id
        invariant
            0 <= d <= config.destinations@.len(),
            pd == (|e: (String, Destination)| e.1.id == channel_id),
            first_from(config.destinations@, pd, 0) == first_from(config.destinations@, pd, d as int),
        decreases config.destinations.len() - d,
    {
        d += 1;
    }
    if d >= config.destinations.len() {
        return None;
    }
    let name = &config.destinations[d].0;
    let ghost pv = |e: (String, Vault)| e.1.destination@ == config.destinations@[d as int].0@;
    let mut v: usize = 0;
    while v < config.vaults.len() && config.vaults[v].1.destination != *name
        invariant
            0 <= v <= config.vaults@.len(),
            d < config.destinations@.len(),
            *name == config.destinations@[d as int].0,
            pv == (|e: (String, Vault)| e.1.destination@ == config.destinations@[d as int].0@),
            first_from(config.vaults@, pv, 0) == first_from(config.vaults@, pv, v as int),
        decreases config.vaults.len() - v,
    {
        v += 1;
    }
    if v >= config.vaults.len() {
        None
    } else {
        Some(v)
    }
}

/// The vault (by index) whose destination has channel id `channel_id`.
pub fn channel_vault_index(config: &Config, channel_id: u64) -> (r: Option<usize>)
    ensures
        match r {
            Some(i) => channel_vault(*config, channel_id) == Some(i as int) && i < config.vaults@.len(),
            None => channel_vault(*config, channel_id) is None,
        },
{
    let r = find_channel_vault(config, channel_id);
    proof {
        let d = first_from(config.destinations@, |e: (String, Destination)| e.1.id == channel_id, 0);
        lemma_first_from(config.destinations@, |e: (String, Destination)| e.1.id == channel_id, 0);
        if d is Some {
            lemma_first_from(
                config.vaults@,
                |e: (String, Vault)| e.1.destination@ == config.destinations@[d->0].0@,
                0,
            );
        }
    }
    r
}

/// The entry (by index) of the reminders known for the vault named `name`.
pub fn known_reminders_index(state: &State, name: &String) -> (r: Option<usize>)
    ensures
        match r {
            Some(i) => known_reminders(*state, name@) == Some(i as int) && i < state.reminders@.len(),
            None => known_reminders(*state, name@) is None,
        },
{
    let ghost p = |e: (String, Vec<ReminderKey>)| e.0@ == name@;
    let mut i: usize = 0;
    while i < state.reminders.len() && state.reminders[i].0 != *name
        invariant
            0 <= i <= state.reminders@.len(),
            p == (|e: (String, Vec<ReminderKey>)| e.0@ == name@),
            first_from(state.reminders@, p, 0) == first_from(state.reminders@, p, i as int),
        decreases state.reminders.len() - i,
    {
        i += 1;
    }
    if i < state.reminders.len() {
        Some(i)
    } else {
        None
    }
}

fn push_str(out: &mut Vec<char>, s: &str)
    ensures
        final(out)@ == old(out)@ + s@,
{
    let mut c = chars_of(s);
    out.append(&mut c);
}

fn location_chars(root: &str, path: &str) -> (r: Vec<char>)
    ensures
        r@ == listed_location(root@, path@),
{
    let rc = chars_of(root);
    let pc = chars_of(path);
    let mut prefix = rc.len() <= pc.len();
    let mut i: usize = 0;
    while prefix && i < rc.len()
        invariant
            0 <= i <= rc@.len(),
            prefix ==> rc@.len() <= pc@.len() && forall|t: int| 0 <= t < i ==> pc@[t] == rc@[t],
            !prefix ==> !(rc@.len() <= pc@.len() && pc@.take(rc@.len() as int) == rc@),
        decreases rc.len() - i,
    {
        if pc[i] != rc[i] {
            prefix = false;
            assert(pc@.take(rc@.len() as int)[i as int] != rc@[i as int]);
        }
        i += 1;
    }
    if prefix {
        assert(pc@.take(rc@.len() as int) =~= rc@);
        let mut rest: Vec<char> = Vec::new();
        let mut k = rc.len();
        while k < pc.len()
            invariant
                rc@.len() <= k <= pc@.len(),
                rest@ =~= pc@.subrange(rc@.len() as int, k as int),
            decreases pc.len() - k,
        {
            rest.push(pc[k]);
            k += 1;
        }
        assert(rest@ =~= pc@.skip(rc@.len() as int));
        trim_slashes_chars(rest.as_slice())
    } else {
        trim_slashes_chars(pc.as_slice())
    }
}

fn entry_chars(root: &str, k: &ReminderKey, out: &mut Vec<char>)
    ensures
        final(out)@ == old(out)@ + reminder_entry(root@, k@),
{
    let ghost start = out@;
    push_str(out, "- time: ");
    let t = k.time_parts.to_display_string();
    push_str(out, t.as_str());
    push_str(out, "\n  location: ");
    let mut loc = location_chars(root, k.file_path.as_str());
    out.append(&mut loc);
    push_str(out, "\n  msg: `");
    push_str(out, k.msg.as_str());
    push_str(out, "`");
    assert(out@ =~= start + reminder_entry(root@, k@));
}

/// The listing of the reminders `ks` of the vault whose root folder is
/// `root`.
pub fn reminders_listing(root: &str, ks: &Vec<ReminderKey>) -> (r: String)
    ensures
        r@ == listing(root@, ks@.map_values(|k: ReminderKey| k@)),
{
    let ghost kv = ks@.map_values(|k: ReminderKey| k@);
    let mut out: Vec<char> = Vec::new();
    let mut i: usize = 0;
    while i < ks.len()
        invariant
            0 <= i <= ks@.len(),
            kv == ks@.map_values(|k: ReminderKey| k@),
            out@ == listing(root@, kv.take(i as int)),
        decreases ks.len() - i,
    {
        proof {
            assert(kv.take(i + 1).drop_last() =~= kv.take(i as int));
            assert(kv.take(i + 1).last() == ks@[i as int]@);
        }
        if i > 0 {
            out.push('\n');
        } else {
            assert(kv.take(1)[0] == ks@[0]@);
        }
        entry_chars(root, &ks[i], &mut out);
        i += 1;
    }
    proof {
        assert(kv.take(ks@.len() as int) =~= kv);
    }
    string_from_chars(out.as_slice())
}

/// The answer of `get_reminders` asked in channel `channel_id`: a refusal
/// when the channel is no vault's destination, a wait-and-see when no
/// reminders are known for that vault, else the listing of its reminders.
pub fn get_reminders_reply(config: &Config, state: &State, channel_id: u64) -> (r: RemindersReply)
    ensures
        match channel_vault(*config, channel_id) {
            None => r matches RemindersReply::Say(t) && t@ == refusal(),
            Some(v) => match known_reminders(*state, config.vaults@[v].0@) {
                None => r matches RemindersReply::Say(t) && t@ == not_ready(),
                Some(e) => r matches RemindersReply::Listing { reminders, text, inline } && {
                    &&& reminders@.map_values(|k: ReminderKey| k@) == state.reminders@[e].1@.map_values(|k: ReminderKey| k@)
                    &&& text@ == listing(config.vaults@[v].1.root_dir@, reminders@.map_values(|k: ReminderKey| k@))
                    &&& inline == (utf8_len(text@) <= 2000)
                },
            },
        },
{
    let v = match channel_vault_index(config, channel_id) {
        None => {
            return RemindersReply::Say(String::from_str("Get the fuck out"));
        },
        Some(v) => v,
    };
    let e = match known_reminders_index(state, &config.vaults[v].0) {
        None => {
            return RemindersReply::Say(String::from_str("reminders contained None, check back later"));
        },
        Some(e) => e,
    };
    let src = &state.reminders[e].1;
    let mut reminders: Vec<ReminderKey> = Vec::new();
    let mut i: usize = 0;
    while i < src.len()
        invariant
            0 <= i <= src@.len(),
            reminders@.len() == i,
            forall|k: int| 0 <= k < i ==> #[trigger] reminders@[k]@ == src@[k]@,
        decreases src.len() - i,
    {
        reminders.push(src[i].duplicate());
        i += 1;
    }
    assert(reminders@.map_values(|k: ReminderKey| k@) =~= src@.map_values(|k: ReminderKey| k@));
    let text = reminders_listing(config.vaults[v].1.root_dir.as_str(), &reminders);
    let inline = text.as_str().len() <= 2000;
    RemindersReply::Listing { reminders, text, inline }
}

} // verus!
