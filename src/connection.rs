//! Connection targets: a display name and a normalized address.

use vstd::prelude::*;
use vstd::string::*;
use crate::text::{
    decimal, decimal_string, find_separator, first_separator, has_prefix, same_text, starts_with,
};

verus! {

/// The scheme that every normalized address carries.
pub open spec fn default_scheme() -> Seq<char> {
    "postgresql://"@
}

/// The short form of the default scheme, accepted as is.
pub open spec fn short_scheme() -> Seq<char> {
    "postgres://"@
}

/// The address `s` with its scheme replaced by the default one; an address
/// that already carries the default scheme, or its short form, is kept.
pub open spec fn normalized_address(s: Seq<char>) -> Seq<char> {
    if starts_with(s, default_scheme()) || starts_with(s, short_scheme()) {
        s
    } else {
        match first_separator(s) {
            Some(i) => default_scheme() + s.subrange(i + 3, s.len() as int),
            None => default_scheme() + s,
        }
    }
}

/// The synthesized name of the target at position `ordinal`: `postgres-<ordinal + 1>`.
pub open spec fn ordinal_name(ordinal: nat) -> Seq<char> {
    "postgres-"@ + decimal(ordinal + 1)
}

/// The display name of address `s`: its scheme, unless the scheme is absent
/// or is the default one, in which case the name is synthesized from `ordinal`.
pub open spec fn display_name(s: Seq<char>, ordinal: nat) -> Seq<char> {
    match first_separator(s) {
        Some(i) => {
            let scheme = s.subrange(0, i);
            if scheme == "postgresql"@ || scheme == "postgres"@ {
                ordinal_name(ordinal)
            } else {
                scheme
            }
        },
        None => ordinal_name(ordinal),
    }
}

/// A named database endpoint.
#[derive(Debug, Clone)]
pub struct ConnectionInfo {
    pub name: String,
    pub connection_string: String,
}

/// Why a list of addresses gives no connection target.
#[derive(Debug, Clone, Copy, PartialEq, Eq, Structural)]
pub enum ConfigError {
    NoConnection,
}

fn ordinal_name_string(ordinal: usize) -> (r: String)
    ensures
        r@ == ordinal_name(ordinal as nat),
{
    let mut r = String::from_str("postgres-");
    let digits = decimal_string(ordinal as u128 + 1);
    r.append(digits.as_str());
    r
}

impl ConnectionInfo {
    /// Builds the target for the address `s`, given at position `ordinal`.
    pub fn from_str(s: &str, ordinal: usize) -> (r: ConnectionInfo)
        ensures
            r.name@ == display_name(s@, ordinal as nat),
            r.connection_string@ == normalized_address(s@),
    {
        let n = s.unicode_len();
        let sep = find_separator(s);
        let connection_string = if has_prefix(s, "postgresql://") || has_prefix(s, "postgres://") {
            String::from_str(s)
        } else {
            let mut a = String::from_str("postgresql://");
            match sep {
                Some(i) => a.append(s.substring_char(i + 3, n)),
                None => a.append(s),
            }
            a
        };
        let name = match sep {
            Some(i) => {
                let scheme = s.substring_char(0, i);
                if same_text(scheme, "postgresql") || same_text(scheme, "postgres") {
                    ordinal_name_string(ordinal)
                } else {
                    String::from_str(scheme)
                }
            },
            None => ordinal_name_string(ordinal),
        };
        ConnectionInfo { name, connection_string }
    }
}

/// The targets for a list of addresses, each named by its position.
pub open spec fn targets_of(addresses: Seq<Seq<char>>) -> Seq<(Seq<char>, Seq<char>)> {
    Seq::new(
        addresses.len(),
        |i: int| (display_name(addresses[i], i as nat), normalized_address(addresses[i])),
    )
}

/// The targets for the given addresses, in order; an empty list is an error.
pub fn resolve_connections(addresses: &Vec<String>) -> (r: Result<Vec<ConnectionInfo>, ConfigError>)
    ensures
        addresses@.len() == 0 <==> r is Err,
        r matches Ok(v) ==> v@.len() == addresses@.len() && forall|i: int|
            0 <= i < v@.len() ==> (#[trigger] v@[i]).name@ == display_name(addresses@[i]@, i as nat)
                && v@[i].connection_string@ == normalized_address(addresses@[i]@),
{
    if addresses.len() == 0 {
        return Err(ConfigError::NoConnection);
    }
    let mut v: Vec<ConnectionInfo> = Vec::new();
    let mut i: usize = 0;
    while i < addresses.len()
        invariant
            i <= addresses@.len(),
            v@.len() == i,
            forall|j: int|
                0 <= j < i ==> (#[trigger] v@[j]).name@ == display_name(addresses@[j]@, j as nat)
                    && v@[j].connection_string@ == normalized_address(addresses@[j]@),
        decreases addresses@.len() - i,
    {
        v.push(ConnectionInfo::from_str(addresses[i].as_str(), i));
        i = i + 1;
    }
    Ok(v)
}

} // verus!
