use vstd::prelude::*;

use vstd::string::StrSliceExecFns;

verus! {

/// True when the string begins with the four characters of an http or
/// https scheme; such an argument names a remote image, anything else a
/// local path.
pub open spec fn spec_is_url(s: Seq<char>) -> bool {
    s.len() >= 4 && s.subrange(0, 4) == "http"@
}

/// True when `s` begins with "http".
pub(crate) fn is_url_prefix(s: &str) -> (r: bool)
    ensures
        r == spec_is_url(s@),
{
    let n = s.unicode_len();
    if n < 4 {
        return false;
    }
    let r = s.get_char(0) == 'h' && s.get_char(1) == 't' && s.get_char(2) == 't' && s.get_char(3)
        == 'p';
    proof {
        reveal_strlit("http");
        if r {
            assert(s@.subrange(0, 4) =~= "http"@);
        } else {
            if s@.subrange(0, 4) == "http"@ {
                assert(s@[0] == s@.subrange(0, 4)[0]);
                assert(s@[1] == s@.subrange(0, 4)[1]);
                assert(s@[2] == s@.subrange(0, 4)[2]);
                assert(s@[3] == s@.subrange(0, 4)[3]);
                assert(false);
            }
        }
    }
    r
}

/// Where a file argument points: a local filesystem path or an http(s)
/// URL.
#[derive(Debug, PartialEq)]
pub enum FileType {
    Local(String),
    Url(String),
}

impl From<String> for FileType {
    /// Classifies the argument: strings beginning with "http" name URLs,
    /// everything else a local path. The string itself is kept either way.
    fn from(file_path: String) -> (r: FileType) {
        if is_url_prefix(file_path.as_str()) {
            FileType::Url(file_path)
        } else {
            FileType::Local(file_path)
        }
    }
}

impl vstd::std_specs::convert::FromSpecImpl<String> for FileType {
    open spec fn obeys_from_spec() -> bool {
        true
    }

    open spec fn from_spec(v: String) -> FileType {
        if spec_is_url(v@) {
            FileType::Url(v)
        } else {
            FileType::Local(v)
        }
    }
}

} // verus!
