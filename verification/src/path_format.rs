//! Path-segment handling: username and device segments arrive suffixed with
//! `.json`, and an unrecognized suffix is refused before anything else runs.

use vstd::prelude::*;

use crate::error::Error;

verus! {

/// Whether a path segment ends in `.json`.
pub open spec fn spec_json_suffix_ok(s: Seq<char>) -> bool {
    &&& s.len() >= 5
    &&& s[s.len() - 5] == '.'
    &&& s[s.len() - 4] == 'j'
    &&& s[s.len() - 3] == 's'
    &&& s[s.len() - 2] == 'o'
    &&& s[s.len() - 1] == 'n'
}

/// Splits the `.json` suffix off a path segment; a segment without it is a
/// malformed request.
pub fn split_format_json<'a>(s: &'a str) -> (r: Result<&'a str, Error>)
    ensures
        spec_json_suffix_ok(s@) ==> (r matches Ok(name) && name@ == s@.subrange(
            0,
            s@.len() - 5,
        )),
        !spec_json_suffix_ok(s@) ==> r == Err::<&'a str, Error>(Error::BadRequest),
{
    let n = s.unicode_len();
    if n < 5 {
        return Err(Error::BadRequest);
    }
    let ok = s.get_char(n - 5) == '.' && s.get_char(n - 4) == 'j' && s.get_char(n - 3) == 's'
        && s.get_char(n - 2) == 'o' && s.get_char(n - 1) == 'n';
    if !ok {
        return Err(Error::BadRequest);
    }
    Ok(s.substring_char(0, n - 5))
}

/// How a route carries its username segment: bare, or suffixed with
/// `.json`.
#[derive(Clone, Copy, Debug)]
pub enum UsernameFormat {
    Name,
    NameJson,
}

impl UsernameFormat {
    /// The bare username of a path segment in this format.
    pub fn convert<'a>(&self, username: &'a str) -> (r: Result<&'a str, Error>)
        ensures
            match self {
                UsernameFormat::Name => (r matches Ok(u) && u@ == username@),
                UsernameFormat::NameJson => {
                    &&& spec_json_suffix_ok(username@) ==> (r matches Ok(u) && u@
                        == username@.subrange(0, username@.len() - 5))
                    &&& !spec_json_suffix_ok(username@) ==> r == Err::<&'a str, Error>(
                        Error::BadRequest,
                    )
                },
            },
    {
        match self {
            UsernameFormat::Name => Ok(username),
            UsernameFormat::NameJson => split_format_json(username),
        }
    }
}

} // verus!
