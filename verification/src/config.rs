//! The configuration: the session's secret, the two directories, and the
//! places where the configuration itself is looked for.
use vstd::prelude::*;
use crate::text::push_str;
use crate::text::string_of;

verus! {

/// The configuration.
#[derive(Debug, Clone)]
pub struct Config {
    /// The session's secret; empty where nobody is logged in.
    pub sessdata: String,
    pub cache_dir: String,
    pub default_download_dir: String,
    /// The resolution of exported pages in dots per inch, as the bit
    /// pattern of a binary64 number; `None` for the best of each image.
    pub dpi: Option<u64>,
}

/// The cookie that carries a session's secret: none for none.
pub open spec fn cookie_of(sessdata: Seq<char>) -> Seq<char> {
    if sessdata.len() == 0 {
        Seq::<char>::empty()
    } else {
        "SESSDATA="@ + sessdata
    }
}

impl Config {
    /// The cookie to send with every request.
    pub fn cookie(&self) -> (cookie: String)
        ensures
            cookie@ == cookie_of(self.sessdata@),
    {
        let mut out: Vec<char> = Vec::new();
        if self.sessdata.as_str().unicode_len() == 0 {
            return string_of(&out);
        }
        push_str(&mut out, "SESSDATA=");
        push_str(&mut out, self.sessdata.as_str());
        assert(out@ =~= "SESSDATA="@ + self.sessdata@);
        string_of(&out)
    }
}

/// One of the places where the configuration may lie.
#[derive(Debug, Clone, Copy, PartialEq, Eq, Structural)]
pub enum ConfigPlace {
    /// The working directory.
    Current,
    /// The hidden directory in the user's home.
    Home,
    /// The directory among the user's documents.
    Document,
}

/// Chooses the configuration to load among those that exist: the one in
/// the working directory before the one in the user's home, and that
/// before the one among the user's documents.
pub fn choose_config(current: bool, home: bool, document: bool) -> (place: Option<ConfigPlace>)
    ensures
        place == if current {
            Some(ConfigPlace::Current)
        } else if home {
            Some(ConfigPlace::Home)
        } else if document {
            Some(ConfigPlace::Document)
        } else {
            None
        },
{
    if current {
        Some(ConfigPlace::Current)
    } else if home {
        Some(ConfigPlace::Home)
    } else if document {
        Some(ConfigPlace::Document)
    } else {
        None
    }
}

/// Chooses the place to save the configuration to: where it was loaded
/// from, else among the user's documents where the user's directories are
/// known, else the working directory.
pub fn save_place(loaded_from: Option<ConfigPlace>, user_dirs_known: bool) -> (place: ConfigPlace)
    ensures
        place == match loaded_from {
            Some(p) => p,
            None => if user_dirs_known {
                ConfigPlace::Document
            } else {
                ConfigPlace::Current
            },
        },
{
    match loaded_from {
        Some(p) => p,
        None => if user_dirs_known {
            ConfigPlace::Document
        } else {
            ConfigPlace::Current
        },
    }
}

/// Where a first configuration puts things: the directory that everything
/// lies under, and whether downloads go to the user's own directory for
/// them.
#[derive(Debug, Clone, Copy, PartialEq, Eq, Structural)]
pub struct DefaultPlaces {
    pub base: ConfigPlace,
    pub user_download_dir: bool,
}

/// Chooses the places of a first configuration: among the user's
/// documents if that directory is known, else in the user's home, else in
/// the working directory; downloads go to the user's directory for them
/// where the user's directories are known and have one.
pub fn default_places(user_dirs_known: bool, document_dir_known: bool, download_dir_known: bool) -> (places:
    DefaultPlaces)
    ensures
        places == (DefaultPlaces {
            base: if !user_dirs_known {
                ConfigPlace::Current
            } else if document_dir_known {
                ConfigPlace::Document
            } else {
                ConfigPlace::Home
            },
            user_download_dir: user_dirs_known && download_dir_known,
        }),
{
    let base = if !user_dirs_known {
        ConfigPlace::Current
    } else if document_dir_known {
        ConfigPlace::Document
    } else {
        ConfigPlace::Home
    };
    DefaultPlaces { base, user_download_dir: user_dirs_known && download_dir_known }
}

} // verus!
