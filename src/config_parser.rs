use vstd::prelude::*;

use crate::config::{merge_presets, std_text, strings_view, Config};
use crate::errors::ParsingError;

verus! {

/// Builds the configuration: the defaults first, then what the user's file gives laid over
/// them. Reading and decoding the TOML text is the caller's part; this checks and merges.
pub struct ConfigParser {
    file: String,
}

/// Whether `r` is the error for a disallowed standard `std`.
pub open spec fn is_wrong_standard(r: Result<(), ParsingError>, std: u8) -> bool {
    r == Err::<(), ParsingError>(ParsingError::WrongStandart(std))
}

impl ConfigParser {
    /// A parser for the user's configuration file `file`.
    pub fn new(file: String) -> (r: Self)
        ensures
            r.file_view() == file@,
    {
        ConfigParser { file }
    }

    /// The user's configuration file.
    pub closed spec fn file_view(&self) -> Seq<char> {
        self.file@
    }

    /// The user's configuration file.
    pub fn file(&self) -> (r: &String)
        ensures
            r@ == self.file_view(),
    {
        &self.file
    }

    /// Makes `defaults`, the decoded default configuration, the configuration; fails where it
    /// could not be decoded or names a standard that is not allowed.
    pub fn make_default(&self, cfg: &mut Config, defaults: Result<Config, ParsingError>) -> (r:
        Result<(), ParsingError>)
        ensures
            match defaults {
                Ok(d) => *final(cfg) == d && if std_text(d.std) is Some {
                    r is Ok
                } else {
                    is_wrong_standard(r, d.std)
                },
                Err(e) => r == Err::<(), ParsingError>(e) && *final(cfg) == *old(cfg),
            },
    {
        match defaults {
            Ok(d) => {
                *cfg = d;
                match cfg.std_as_str() {
                    Some(_) => Ok(()),
                    None => Err(ParsingError::WrongStandart(cfg.std)),
                }
            },
            Err(e) => Err(e),
        }
    }

    /// Lays the user's decoded configuration over `cfg`; `None` where the user has no file,
    /// which leaves `cfg` as it is. Fails where the file could not be read or decoded, or where
    /// the merged standard is not allowed.
    pub fn try_incremental_parse(
        &self,
        cfg: &mut Config,
        user: Option<Result<Config, ParsingError>>,
    ) -> (r: Result<(), ParsingError>)
        requires
            old(cfg).wf(),
            match user {
                Some(Ok(u)) => u.wf(),
                _ => true,
            },
        ensures
            final(cfg).wf(),
            match user {
                None => r is Ok && *final(cfg) == *old(cfg),
                Some(Err(e)) => r == Err::<(), ParsingError>(e) && *final(cfg) == *old(cfg),
                Some(Ok(u)) => {
                    &&& final(cfg).std == if u.std != 0 {
                        u.std
                    } else {
                        old(cfg).std
                    }
                    &&& strings_view(final(cfg).include_dirs@) == if u.include_dirs.len() > 0 {
                        strings_view(u.include_dirs@)
                    } else {
                        strings_view(old(cfg).include_dirs@)
                    }
                    &&& strings_view(final(cfg).lib_dirs@) == if u.lib_dirs.len() > 0 {
                        strings_view(u.lib_dirs@)
                    } else {
                        strings_view(old(cfg).lib_dirs@)
                    }
                    &&& final(cfg).target_name@ == if u.target_name@.len() > 0 {
                        u.target_name@
                    } else {
                        old(cfg).target_name@
                    }
                    &&& final(cfg).presets_view() == merge_presets(
                        old(cfg).presets_view(),
                        u.presets_view(),
                    )
                    &&& if std_text(final(cfg).std) is Some {
                        r is Ok
                    } else {
                        is_wrong_standard(r, final(cfg).std)
                    }
                },
            },
    {
        match user {
            None => Ok(()),
            Some(Err(e)) => Err(e),
            Some(Ok(u)) => {
                cfg.incremental_merge(u);
                match cfg.std_as_str() {
                    Some(_) => Ok(()),
                    None => Err(ParsingError::WrongStandart(cfg.std)),
                }
            },
        }
    }
}

} // verus!
