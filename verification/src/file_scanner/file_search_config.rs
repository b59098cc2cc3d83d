//! Fixed scan configurations, written in code: which vault folder to scan
//! and where to report.
use crate::bot::destination::Destination;
use vstd::prelude::*;

verus! {

pub const FUZ_VAULT_PATH: &'static str = "/home/fuzzy/obsidian/fuz-vault";

pub const DEBUG_PATH: &'static str = "/home/fuzzy/obsidian/fuz-vault/debug";

pub const MAGIC_BEANS_VAULT_PATH: &'static str = "/home/fuzzy/obsidian/magic-beans-vault";

/// A folder to scan and the destination for what is found there.
#[derive(Clone, Copy, Debug)]
pub struct FileSearchConfig {
    pub root_dir: &'static str,
    pub notification_channel: Destination,
}

impl FileSearchConfig {
    /// Both vaults, each reporting to its notes channel.
    pub fn gen_all_configs() -> (r: Vec<FileSearchConfig>)
        ensures
            r@.len() == 2,
            r@[0].root_dir@ == FUZ_VAULT_PATH@,
            r@[0].notification_channel == Destination::FuzzyObsidianCh,
            r@[1].root_dir@ == MAGIC_BEANS_VAULT_PATH@,
            r@[1].notification_channel == Destination::MagicBeansObsidianCh,
    {
        let mut v = Vec::new();
        v.push(
            FileSearchConfig {
                root_dir: FUZ_VAULT_PATH,
                notification_channel: Destination::FuzzyObsidianCh,
            },
        );
        v.push(
            FileSearchConfig {
                root_dir: MAGIC_BEANS_VAULT_PATH,
                notification_channel: Destination::MagicBeansObsidianCh,
            },
        );
        v
    }

    /// Both vaults, each reporting to its debugging channel.
    pub fn gen_all_debug_configs() -> (r: Vec<FileSearchConfig>)
        ensures
            r@.len() == 2,
            r@[0].root_dir@ == FUZ_VAULT_PATH@,
            r@[0].notification_channel == Destination::DebugObsidianFuzzyCh,
            r@[1].root_dir@ == MAGIC_BEANS_VAULT_PATH@,
            r@[1].notification_channel == Destination::DebugObsidianMagicBeansCh,
    {
        let mut v = Vec::new();
        v.push(
            FileSearchConfig {
                root_dir: FUZ_VAULT_PATH,
                notification_channel: Destination::DebugObsidianFuzzyCh,
            },
        );
        v.push(
            FileSearchConfig {
                root_dir: MAGIC_BEANS_VAULT_PATH,
                notification_channel: Destination::DebugObsidianMagicBeansCh,
            },
        );
        v
    }

    /// The debug folder only, reporting to the first vault's debugging
    /// channel.
    pub fn gen_short_debug_config() -> (r: Vec<FileSearchConfig>)
        ensures
            r@.len() == 1,
            r@[0].root_dir@ == DEBUG_PATH@,
            r@[0].notification_channel == Destination::DebugObsidianFuzzyCh,
    {
        let mut v = Vec::new();
        v.push(
            FileSearchConfig {
                root_dir: DEBUG_PATH,
                notification_channel: Destination::DebugObsidianFuzzyCh,
            },
        );
        v
    }
}

} // verus!
