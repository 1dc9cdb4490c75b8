//! The schema version of a snapshot, as written in the `version` file of an archive.

use vstd::prelude::*;

use crate::text::{ascii_at, ascii_len, starts_with_at};

verus! {

/// The schema versions of snapshots that are supported.
#[derive(Copy, Clone, Eq, PartialEq, Debug, Structural)]
pub enum SnapshotVersion {
    V1_2_0,
}

/// How a version is written.
pub open spec fn version_string(snapshot_version: SnapshotVersion) -> Seq<char> {
    match snapshot_version {
        SnapshotVersion::V1_2_0 => "1.2.0"@,
    }
}

/// `s` without one leading `v` or `V`, if it has one.
pub open spec fn without_version_mark(s: Seq<char>) -> Seq<char> {
    if s.len() > 0 && (s[0] == 'v' || s[0] == 'V') {
        s.drop_first()
    } else {
        s
    }
}

/// The version that `s` names: the way a version is written, with or without one leading
/// `v` or `V`. `None` for every other string.
pub open spec fn version_of_string(s: Seq<char>) -> Option<SnapshotVersion> {
    if without_version_mark(s) == "1.2.0"@ {
        Some(SnapshotVersion::V1_2_0)
    } else {
        None
    }
}

/// Every version is found again from the way it is written, with a leading `v` too.
pub proof fn lemma_version_string_round_trip(snapshot_version: SnapshotVersion)
    ensures
        version_of_string(version_string(snapshot_version)) == Some(snapshot_version),
        version_of_string(seq!['v'] + version_string(snapshot_version)) == Some(snapshot_version),
        version_of_string(seq!['V'] + version_string(snapshot_version)) == Some(snapshot_version),
{
    reveal_strlit("1.2.0");
    let s = version_string(snapshot_version);
    assert((seq!['v'] + s).drop_first() =~= s);
    assert((seq!['V'] + s).drop_first() =~= s);
}

impl Default for SnapshotVersion {
    fn default() -> (r: SnapshotVersion)
        ensures
            r == SnapshotVersion::V1_2_0,
    {
        SnapshotVersion::V1_2_0
    }
}

impl SnapshotVersion {
    /// How the version is written.
    pub fn as_str(self) -> (r: &'static str)
        ensures
            r@ == version_string(self),
    {
        match self {
            SnapshotVersion::V1_2_0 => "1.2.0",
        }
    }

    /// The version that `version_string` names, if it names one.
    pub fn maybe_from_string(version_string: &str) -> (r: Option<SnapshotVersion>)
        ensures
            r == version_of_string(version_string@),
    {
        proof {
            reveal_strlit("1.2.0");
        }
        if !version_string.is_ascii() {
            proof {
                let s = version_string@;
                let i = choose|i: int| 0 <= i < s.len() && !('\0' <= #[trigger] s[i] <= '\u{7f}');
                let body = without_version_mark(s);
                let lit = "1.2.0"@;
                if body == lit {
                    let j = if body.len() == s.len() {
                        i
                    } else {
                        i - 1
                    };
                    assert(body[j] == s[i]);
                    assert(lit[j] == '1' || lit[j] == '.' || lit[j] == '2' || lit[j] == '0');
                }
            }
            return None;
        }
        let n: usize = ascii_len(version_string);
        let at: usize = if n > 0 && (ascii_at(version_string, 0) == 0x76 || ascii_at(
            version_string,
            0,
        ) == 0x56) {
            1
        } else {
            0
        };
        proof {
            let s = version_string@;
            assert(without_version_mark(s) =~= s.subrange(at as int, n as int));
        }
        if n - at == 5 && starts_with_at(version_string, at, "1.2.0") {
            Some(SnapshotVersion::V1_2_0)
        } else {
            None
        }
    }

    /// The version that `version_string` names, or the reason why it names none.
    pub fn from_version_string(version_string: &str) -> (r: Result<SnapshotVersion, &'static str>)
        ensures
            match r {
                Ok(v) => version_of_string(version_string@) == Some(v),
                Err(reason) => version_of_string(version_string@) is None && reason@
                    == "unsupported snapshot version"@,
            },
    {
        match SnapshotVersion::maybe_from_string(version_string) {
            Some(v) => Ok(v),
            None => Err("unsupported snapshot version"),
        }
    }
}

impl std::str::FromStr for SnapshotVersion {
    type Err = &'static str;

    /// The version that `version_string` names: the way a version is written, with or
    /// without one leading `v` or `V`. Every other string is an error.
    fn from_str(version_string: &str) -> (r: Result<SnapshotVersion, &'static str>)
        ensures
            match r {
                Ok(v) => version_of_string(version_string@) == Some(v),
                Err(reason) => version_of_string(version_string@) is None && reason@
                    == "unsupported snapshot version"@,
            },
    {
        SnapshotVersion::from_version_string(version_string)
    }
}

} // verus!
