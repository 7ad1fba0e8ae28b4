//! Configuration rules: the course list read from a pair of delimited
//! environment values, and the platform detected from the operating
//! environment's name.
//!
//! The identifier list and the name list must have equal length with
//! positional correspondence; any mismatch, or a malformed identifier, is a
//! configuration error before any network call is attempted. The caller
//! reads the raw environment values and the platform name; the rules are
//! applied here on plain strings.

use vstd::prelude::*;

use crate::listing::Course;
use crate::numeral::{is_numeral, numeral_value, parse_u32};
use crate::split::{split_on, split_on_str};

verus! {

broadcast use vstd::string::group_string_axioms;

/// Why configuration construction failed.
#[derive(Clone, Copy, Debug, PartialEq, Eq, Structural)]
pub enum ConfigError {
    /// The course identifier list and the course name list differ in length.
    MismatchedCourseLists,
    /// A course identifier is not a decimal numeral that fits the
    /// identifier type.
    InvalidCourseId,
    /// The operating environment is none of the supported platforms.
    UnsupportedPlatform,
}

/// The platform, detected once at startup; it selects which external
/// selector and link-opener commands the surrounding process invokes.
#[derive(Clone, Copy, Debug, PartialEq, Eq, Structural)]
pub enum Platform {
    Windows,
    MacOs,
    Linux,
}

/// The literal separating entries of the configured course lists.
pub open spec fn list_sep() -> Seq<char> {
    ", "@
}

/// A configured course identifier field that can be taken as an identifier.
pub open spec fn valid_course_id(f: Seq<char>) -> bool {
    is_numeral(f) && numeral_value(f) <= u32::MAX as int
}

/// Reads the configured courses from the two delimited lists: entry `i` of
/// the identifier list and entry `i` of the name list form one course.
/// Mismatched list lengths fail before any identifier is read; a malformed
/// identifier fails as well. No network request is involved here, so a
/// failing configuration never reaches the remote API.
pub fn parse_course_config(ids: &str, names: &str) -> (r: Result<Vec<Course>, ConfigError>)
    ensures
        ({
            let idf = split_on(ids@, list_sep());
            let nmf = split_on(names@, list_sep());
            &&& (r matches Ok(cs) <==> idf.len() == nmf.len() && (forall|i: int|
                0 <= i < idf.len() ==> valid_course_id(idf[i])))
            &&& (idf.len() != nmf.len() ==> r == Err::<Vec<Course>, ConfigError>(
                ConfigError::MismatchedCourseLists,
            ))
            &&& (idf.len() == nmf.len() && !(forall|i: int|
                0 <= i < idf.len() ==> valid_course_id(idf[i])) ==> r == Err::<
                Vec<Course>,
                ConfigError,
            >(ConfigError::InvalidCourseId))
            &&& (r matches Ok(cs) ==> cs@.len() == idf.len() && (forall|i: int|
                0 <= i < idf.len() ==> cs@[i].id as int == numeral_value(idf[i])
                    && cs@[i].name@ == nmf[i]))
        }),
{
    proof {
        reveal_strlit(", ");
    }
    let id_fields = split_on_str(ids, ", ");
    let name_fields = split_on_str(names, ", ");
    let n = id_fields.len();
    if n != name_fields.len() {
        return Err(ConfigError::MismatchedCourseLists);
    }
    let ghost idf = split_on(ids@, list_sep());
    let ghost nmf = split_on(names@, list_sep());
    let mut courses: Vec<Course> = Vec::new();
    let mut i: usize = 0;
    while i < n
        invariant
            i <= n,
            n == id_fields@.len(),
            n == name_fields@.len(),
            idf == split_on(ids@, list_sep()),
            nmf == split_on(names@, list_sep()),
            id_fields.deep_view() == idf,
            name_fields.deep_view() == nmf,
            idf.len() == nmf.len(),
            courses@.len() == i,
            forall|k: int| 0 <= k < i ==> valid_course_id(idf[k]),
            forall|k: int| #![trigger courses@[k]] 0 <= k < i ==> courses@[k].id as int
                == numeral_value(idf[k]) && courses@[k].name@ == nmf[k],
        decreases n - i,
    {
        proof {
            assert(id_fields.deep_view()[i as int] == id_fields@[i as int]@);
            assert(name_fields.deep_view()[i as int] == name_fields@[i as int]@);
        }
        match parse_u32(id_fields[i].as_str()) {
            Some(id) => {
                proof {
                    crate::numeral::lemma_numeral_value_nonneg(idf[i as int]);
                }
                let name = name_fields[i].clone();
                let entry = Course { id, name };
                let ghost before = courses@;
                let ghost added = entry;
                courses.push(entry);
                proof {
                    assert(added.name@ == nmf[i as int]);
                    assert forall|k: int| #![trigger courses@[k]] 0 <= k < i + 1
                        implies courses@[k].id as int == numeral_value(idf[k])
                        && courses@[k].name@ == nmf[k] by {
                        if k < i {
                            assert(courses@[k] == before[k]);
                        } else {
                            assert(courses@[k] == added);
                        }
                    }
                }
            },
            None => {
                proof {
                    assert(idf.len() == id_fields@.len());
                    assert(!valid_course_id(idf[i as int]));
                }
                return Err(ConfigError::InvalidCourseId);
            },
        }
        i += 1;
    }
    Ok(courses)
}

/// Maps the operating environment's name to the platform: exactly
/// `windows`, `macos` and `linux` are supported, anything else fails
/// detection before a variant is ever selected.
pub fn detect_platform(os_name: &str) -> (r: Result<Platform, ConfigError>)
    ensures
        os_name@ == "windows"@ ==> r == Ok::<Platform, ConfigError>(Platform::Windows),
        os_name@ == "macos"@ ==> r == Ok::<Platform, ConfigError>(Platform::MacOs),
        os_name@ == "linux"@ ==> r == Ok::<Platform, ConfigError>(Platform::Linux),
        os_name@ != "windows"@ && os_name@ != "macos"@ && os_name@ != "linux"@ ==> r == Err::<
            Platform,
            ConfigError,
        >(ConfigError::UnsupportedPlatform),
{
    proof {
        reveal_strlit("windows");
        reveal_strlit("macos");
        reveal_strlit("linux");
        assert("windows"@.len() == 7);
        assert("macos"@.len() == 5);
        assert("linux"@.len() == 5);
        assert("macos"@[0] == 'm' && "linux"@[0] == 'l');
    }
    if crate::split::str_eq(os_name, "windows") {
        Ok(Platform::Windows)
    } else if crate::split::str_eq(os_name, "macos") {
        Ok(Platform::MacOs)
    } else if crate::split::str_eq(os_name, "linux") {
        Ok(Platform::Linux)
    } else {
        Err(ConfigError::UnsupportedPlatform)
    }
}

} // verus!
