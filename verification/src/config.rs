use vstd::prelude::*;
use crate::error::Error;
use crate::platform::{Platform, spec_sdk_dir, sdk_dir};
use crate::strutil::{
    concat_str, find_char, find_char_in, lines_of, split_lines, str_eq, trim, trim_slice,
};

verus! {

/// A line with one trailing carriage return removed.
pub open spec fn strip_cr(line: Seq<char>) -> Seq<char> {
    if line.len() > 0 && line.last() == '\r' {
        line.drop_last()
    } else {
        line
    }
}

/// The key/value pair a configuration line declares: the line, less a
/// trailing carriage return, split at its first tab.  A line without a tab
/// declares nothing.
pub open spec fn cfg_pair_of_line(line: Seq<char>) -> Seq<(Seq<char>, Seq<char>)> {
    let l = strip_cr(line);
    let p = find_char(l, '\t');
    if 0 <= p < l.len() {
        seq![(l.take(p), l.skip(p + 1))]
    } else {
        seq![]
    }
}

/// The pairs a sequence of configuration lines declares, in order.
pub open spec fn cfg_pairs_lines(ls: Seq<Seq<char>>) -> Seq<(Seq<char>, Seq<char>)>
    decreases ls.len(),
{
    if ls.len() == 0 {
        seq![]
    } else {
        cfg_pairs_lines(ls.drop_last()) + cfg_pair_of_line(ls.last())
    }
}

/// The pairs configuration text declares: the text is trimmed, then read
/// line by line.
pub open spec fn cfg_pairs_text(text: Seq<char>) -> Seq<(Seq<char>, Seq<char>)> {
    cfg_pairs_lines(lines_of(trim(text)))
}

/// The value of the last pair whose key is `key`, if any: a later entry for
/// the same key shadows an earlier one.
pub open spec fn lookup_last(pairs: Seq<(Seq<char>, Seq<char>)>, key: Seq<char>) -> Option<
    Seq<char>,
>
    decreases pairs.len(),
{
    if pairs.len() == 0 {
        None
    } else if pairs.last().0 == key {
        Some(pairs.last().1)
    } else {
        lookup_last(pairs.drop_last(), key)
    }
}

/// Directory under the home directory that holds the SDK configuration file.
pub const CFG_DIR: &'static str = ".Playdate";

/// Name of the SDK configuration file.
pub const CFG_FILENAME: &'static str = "config";

/// Key under which the configuration file records the SDK root.
pub const CFG_KEY_SDK_ROOT: &'static str = "SDKRoot";

/// One key/value entry of the SDK configuration file.
#[derive(Debug, Clone, PartialEq, Eq)]
pub struct CfgEntry {
    pub key: String,
    pub value: String,
}

/// The parsed SDK configuration: the tab-separated key/value lines of the
/// configuration file, in file order.
#[derive(Debug, Clone, PartialEq, Eq)]
pub struct SdkCfg {
    entries: Vec<CfgEntry>,
}

impl View for SdkCfg {
    type V = Seq<(Seq<char>, Seq<char>)>;

    closed spec fn view(&self) -> Seq<(Seq<char>, Seq<char>)> {
        self.entries@.map_values(|e: CfgEntry| (e.key@, e.value@))
    }
}

impl SdkCfg {
    /// Parses configuration text: the text is trimmed, and every line that
    /// holds a tab becomes a key/value entry, split at the first tab.  Lines
    /// without a tab are skipped.  Parsing never fails.
    pub fn from_text(s: &str) -> (r: SdkCfg)
        ensures
            r@ == cfg_pairs_text(s@),
    {
        let trimmed = trim_slice(s);
        let lines = split_lines(trimmed);
        let mut entries: Vec<CfgEntry> = Vec::new();
        let mut i: usize = 0;
        proof {
            assert(lines.deep_view().take(0) =~= Seq::<Seq<char>>::empty());
            assert(entries@.map_values(|e: CfgEntry| (e.key@, e.value@)) =~= cfg_pairs_lines(
                lines.deep_view().take(0),
            ));
        }
        while i < lines.len()
            invariant
                0 <= i <= lines.len(),
                i <= lines.deep_view().len(),
                lines.deep_view() == lines_of(trim(s@)),
                entries@.map_values(|e: CfgEntry| (e.key@, e.value@)) == cfg_pairs_lines(
                    lines.deep_view().take(i as int),
                ),
            decreases lines.len() - i,
        {
            let line0 = lines[i];
            let n0 = line0.unicode_len();
            let line = if n0 > 0 && line0.get_char(n0 - 1) == '\r' {
                line0.substring_char(0, n0 - 1)
            } else {
                line0
            };
            proof {
                if n0 > 0 && line0@[n0 - 1] == '\r' {
                    assert(line@ =~= strip_cr(line0@));
                } else {
                    assert(line@ =~= strip_cr(line0@));
                }
            }
            match find_char_in(line, '\t') {
                Some(p) => {
                    proof {
                        crate::strutil::lemma_find_char(line@, '\t');
                    }
                    let key = line.substring_char(0, p).to_owned();
                    let nl = line.unicode_len();
                    let value = line.substring_char(p + 1, nl).to_owned();
                    proof {
                        assert(key@ =~= line@.take(p as int));
                        assert(value@ =~= line@.skip(p + 1));
                    }
                    entries.push(CfgEntry { key, value });
                },
                None => {},
            }
            proof {
                let lv = lines.deep_view();
                assert(lv.take(i + 1).drop_last() =~= lv.take(i as int));
                assert(lv.take(i + 1).last() == lv[i as int]);
                assert(entries@.map_values(|e: CfgEntry| (e.key@, e.value@)) =~= cfg_pairs_lines(
                    lv.take(i + 1),
                ));
            }
            i += 1;
        }
        proof {
            assert(lines.deep_view().take(lines.deep_view().len() as int) =~= lines.deep_view());
        }
        SdkCfg { entries }
    }

    /// The configured SDK root: the value of the last `SDKRoot` entry, if any.
    pub fn sdk_path(&self) -> (r: Option<String>)
        ensures
            r.deep_view() == lookup_last(self@, CFG_KEY_SDK_ROOT@),
    {
        let mut found: Option<String> = None;
        let mut i: usize = 0;
        proof {
            assert(self@.take(0) =~= Seq::<(Seq<char>, Seq<char>)>::empty());
        }
        while i < self.entries.len()
            invariant
                0 <= i <= self.entries.len(),
                self@ == self.entries@.map_values(|e: CfgEntry| (e.key@, e.value@)),
                found.deep_view() == lookup_last(self@.take(i as int), CFG_KEY_SDK_ROOT@),
            decreases self.entries.len() - i,
        {
            proof {
                assert(self@.take(i + 1).drop_last() =~= self@.take(i as int));
                assert(self@.take(i + 1).last() == self@[i as int]);
            }
            if str_eq(self.entries[i].key.as_str(), CFG_KEY_SDK_ROOT) {
                found = Some(self.entries[i].value.clone());
            }
            i += 1;
        }
        proof {
            assert(self@.take(self.entries.len() as int) =~= self@);
        }
        found
    }
}

impl core::str::FromStr for SdkCfg {
    type Err = Error;

    fn from_str(s: &str) -> Result<Self, Error> {
        Ok(SdkCfg::from_text(s))
    }
}

/// Where the SDK root resolves to, given what the machine offers: the
/// configuration file's `SDKRoot` value wins; otherwise the environment
/// override; otherwise `<home>/<platform SDK dir>/PlaydateSDK`; with no home
/// directory the resolution fails.
pub open spec fn spec_sdk_path(
    cfg_text: Option<Seq<char>>,
    env_sdk_path: Option<Seq<char>>,
    home_dir: Option<Seq<char>>,
    platform: Platform,
) -> Result<Seq<char>, ()> {
    let configured = match cfg_text {
        Some(t) => lookup_last(cfg_pairs_text(t), "SDKRoot"@),
        None => None,
    };
    match configured {
        Some(p) => Ok(p),
        None => match env_sdk_path {
            Some(e) => Ok(e),
            None => match home_dir {
                Some(h) => Ok(h + "/"@ + spec_sdk_dir(platform) + "/PlaydateSDK"@),
                None => Err(()),
            },
        },
    }
}

/// Resolves the SDK root path.  `cfg_text` is the content of the SDK
/// configuration file when it could be read, `env_sdk_path` the value of the
/// `PLAYDATE_SDK_PATH` environment variable when set, `home_dir` the user's
/// home directory when known.
pub fn playdate_sdk_path(
    cfg_text: Option<&str>,
    env_sdk_path: Option<&str>,
    home_dir: Option<&str>,
    platform: Platform,
) -> (r: Result<String, Error>)
    ensures
        match r {
            Ok(p) => spec_sdk_path(
                cfg_text.deep_view(),
                env_sdk_path.deep_view(),
                home_dir.deep_view(),
                platform,
            ) == Ok::<Seq<char>, ()>(p@),
            Err(e) => spec_sdk_path(
                cfg_text.deep_view(),
                env_sdk_path.deep_view(),
                home_dir.deep_view(),
                platform,
            ) == Err::<Seq<char>, ()>(()) && e is ConfigError,
        },
{
    let configured: Option<String> = match cfg_text {
        Some(t) => SdkCfg::from_text(t).sdk_path(),
        None => None,
    };
    match configured {
        Some(p) => Ok(p),
        None => match env_sdk_path {
            Some(e) => Ok(e.to_owned()),
            None => match home_dir {
                Some(h) => {
                    let mut s = concat_str(h, "/");
                    s.append(sdk_dir(platform));
                    s.append("/PlaydateSDK");
                    Ok(s)
                },
                None => Err(
                    Error::ConfigError { message: "Can't find home dir".to_owned() },
                ),
            },
        },
    }
}

/// The C API directory under the SDK root.
pub fn playdate_c_api_path(sdk_path: &str) -> (r: String)
    ensures
        r@ == sdk_path@ + "/C_API"@,
{
    concat_str(sdk_path, "/C_API")
}

} // verus!
