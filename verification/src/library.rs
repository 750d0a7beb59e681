//! Naming rules of the on-disk signature library: where it lives by
//! default, and which file holds which signature.
use vstd::prelude::*;

use crate::stroke::SignatureId;
use crate::text::{decimal, ends_with, has_suffix, push_decimal};

verus! {

/// `rel` appended to `base` as `std::path::PathBuf::push` does for a
/// relative `rel` on Unix: with a `/` between them unless `base` is empty or
/// already ends with one.
pub open spec fn joined(base: Seq<char>, rel: Seq<char>) -> Seq<char> {
    if base.len() == 0 {
        rel
    } else if base.last() == '/' {
        base + rel
    } else {
        base + seq!['/'] + rel
    }
}

/// Join the relative path `rel` onto `base`.
pub fn join_path(base: &str, rel: &str) -> (p: String)
    requires
        rel@.len() > 0 ==> rel@[0] != '/',
    ensures
        p@ == joined(base@, rel@),
{
    let n = base.unicode_len();
    let mut p = String::from_str(base);
    if n > 0 && base.get_char(n - 1) != '/' {
        proof {
            reveal_strlit("/");
        }
        p.append("/");
    }
    p.append(rel);
    p
}

/// The extension every signature file name ends with.
pub open spec fn sig_ext() -> Seq<char> {
    "sig.json"@
}

/// The default library directory: `$XDG_DATA_HOME/previewer/signatures`
/// when that variable is set and non-empty, else
/// `$HOME/.local/share/previewer/signatures` (with an empty `$HOME` when it
/// is unset).
pub open spec fn default_library_dir(xdg_data_home: Option<Seq<char>>, home: Option<Seq<char>>) -> Seq<char> {
    let base = match xdg_data_home {
        Some(x) if x.len() > 0 => x,
        _ => joined(
            match home {
                Some(h) => h,
                None => Seq::empty(),
            },
            ".local/share"@,
        ),
    };
    joined(base, "previewer/signatures"@)
}

/// The file name of the signature with id `id`: `<id>.sig.json`.
pub open spec fn signature_file_name(id: SignatureId) -> Seq<char> {
    decimal(id.0 as nat) + "."@ + sig_ext()
}

/// A directory of signature files.
pub struct Library {
    dir: String,
}

impl Library {
    /// The directory of the library.
    pub closed spec fn dir_view(&self) -> Seq<char> {
        self.dir@
    }

    /// Library backed by an explicit directory.
    pub fn at(dir: &str) -> (l: Self)
        ensures
            l.dir_view() == dir@,
    {
        Library { dir: String::from_str(dir) }
    }

    /// The default user library, given the values of `$XDG_DATA_HOME` and
    /// `$HOME` (`None` when unset).
    pub fn default_user_library(xdg_data_home: Option<&str>, home: Option<&str>) -> (l: Self)
        ensures
            l.dir_view() == default_library_dir(
                match xdg_data_home {
                    Some(x) => Some(x@),
                    None => None,
                },
                match home {
                    Some(h) => Some(h@),
                    None => None,
                },
            ),
    {
        proof {
            reveal_strlit(".local/share");
            reveal_strlit("previewer/signatures");
        }
        let base = match xdg_data_home {
            Some(x) if x.unicode_len() > 0 => String::from_str(x),
            _ => join_path(
                match home {
                    Some(h) => h,
                    None => "",
                },
                ".local/share",
            ),
        };
        proof {
            reveal_strlit("");
        }
        Library { dir: join_path(base.as_str(), "previewer/signatures") }
    }

    pub fn dir(&self) -> (d: &str)
        ensures
            d@ == self.dir_view(),
    {
        self.dir.as_str()
    }

    /// The path of the file that holds the signature with id `id`.
    pub fn signature_path(&self, id: SignatureId) -> (p: String)
        ensures
            p@ == joined(self.dir_view(), signature_file_name(id)),
    {
        let mut name = String::new();
        push_decimal(&mut name, id.0);
        name.append(".sig.json");
        proof {
            reveal_strlit(".sig.json");
            reveal_strlit(".");
            reveal_strlit("sig.json");
            assert(name@ =~= signature_file_name(id));
            assert(name@[0] == decimal(id.0 as nat)[0]);
            lemma_decimal_starts_with_digit(id.0 as nat);
        }
        join_path(self.dir.as_str(), name.as_str())
    }
}

/// A decimal numeral starts with a digit.
proof fn lemma_decimal_starts_with_digit(n: nat)
    ensures
        decimal(n).len() > 0,
        48 <= decimal(n)[0] as u32 <= 57,
    decreases n,
{
    if n >= 10 {
        lemma_decimal_starts_with_digit(n / 10);
    }
}

/// Whether the file name `name` is one the library loads: it ends with
/// `sig.json`.
pub fn is_signature_file_name(name: &str) -> (r: bool)
    ensures
        r == has_suffix(name@, sig_ext()),
{
    ends_with(name, "sig.json")
}

} // verus!
