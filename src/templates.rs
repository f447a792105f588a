//! Starter files for a new repository.
use vstd::prelude::*;
use vstd::string::*;
use crate::number::{push_signed_decimal, signed_decimal};
use crate::text::{lowercase_of, same_text, to_lowercase};

verus! {

/// The README of a new repository.
pub fn readme_text(repo_name: &str) -> (r: String)
    ensures
        r@ == "# "@ + repo_name@ + "\n\nInitial repository created with Pinax."@,
{
    let mut s = String::new();
    s.append("# ");
    s.append(repo_name);
    s.append("\n\nInitial repository created with Pinax.");
    assert(s@ =~= "# "@ + repo_name@ + "\n\nInitial repository created with Pinax."@);
    s
}

/// The ignore rules for a kind of project, named in any case.
pub open spec fn gitignore_for(kind: Seq<char>) -> Seq<char> {
    let k = lowercase_of(kind);
    if k == "node"@ {
        "node_modules/\ndist/\n.env\n"@
    } else if k == "python"@ {
        "__pycache__/\n*.py[cod]\nvenv/\n"@
    } else if k == "rust"@ {
        "target/\nCargo.lock\n"@
    } else {
        "node_modules/\ntarget/\nbuild/\ndist/\n.env\n.DS_Store\n"@
    }
}

/// The ignore rules for a kind of project; none when no kind is given.
pub fn gitignore_text(kind: &str) -> (r: Option<String>)
    ensures
        kind@.len() == 0 ==> r is None,
        kind@.len() > 0 ==> (r matches Some(t) && t@ == gitignore_for(kind@)),
{
    if kind.is_empty() {
        return None;
    }
    let lower = to_lowercase(kind);
    let k = lower.as_str();
    let t = if same_text(k, "node") {
        "node_modules/\ndist/\n.env\n"
    } else if same_text(k, "python") {
        "__pycache__/\n*.py[cod]\nvenv/\n"
    } else if same_text(k, "rust") {
        "target/\nCargo.lock\n"
    } else {
        "node_modules/\ntarget/\nbuild/\ndist/\n.env\n.DS_Store\n"
    };
    Some(t.to_string())
}

pub open spec fn license_head() -> Seq<char> {
    "MIT License\n\nCopyright (c) "@
}

pub open spec fn license_tail() -> Seq<char> {
    " Pinax User\n\nPermission is hereby granted, free of charge, to any person obtaining a copy\nof this software and associated documentation files (the \"Software\"), to deal\nin the Software without restriction, including without limitation the rights\nto use, copy, modify, merge, publish, distribute, sublicense, and/or sell\ncopies of the Software, and to permit persons to whom the Software is\nfurnished to do so, subject to the following conditions:\n\nThe above copyright notice and this permission notice shall be included in all\ncopies or substantial portions of the Software.\n\nTHE SOFTWARE IS PROVIDED \"AS IS\", WITHOUT WARRANTY OF ANY KIND, EXPRESS OR\nIMPLIED, INCLUDING BUT NOT LIMITED TO THE WARRANTIES OF MERCHANTABILITY,\nFITNESS FOR A PARTICULAR PURPOSE AND NONINFRINGEMENT. IN NO EVENT SHALL THE\nAUTHORS OR COPYRIGHT HOLDERS BE LIABLE FOR ANY CLAIM, DAMAGES OR OTHER\nLIABILITY, WHETHER IN AN ACTION OF CONTRACT, TORT OR OTHERWISE, ARISING FROM,\nOUT OF OR IN CONNECTION WITH THE SOFTWARE OR THE USE OR OTHER DEALINGS IN THE\nSOFTWARE."@
}

/// The MIT license text for the copyright year `year`.
pub fn license_text(year: i32) -> (r: String)
    ensures
        r@ == license_head() + signed_decimal(year as int) + license_tail(),
{
    let mut s = String::new();
    s.append("MIT License\n\nCopyright (c) ");
    push_signed_decimal(&mut s, year as i64);
    s.append(" Pinax User\n\nPermission is hereby granted, free of charge, to any person obtaining a copy\nof this software and associated documentation files (the \"Software\"), to deal\nin the Software without restriction, including without limitation the rights\nto use, copy, modify, merge, publish, distribute, sublicense, and/or sell\ncopies of the Software, and to permit persons to whom the Software is\nfurnished to do so, subject to the following conditions:\n\nThe above copyright notice and this permission notice shall be included in all\ncopies or substantial portions of the Software.\n\nTHE SOFTWARE IS PROVIDED \"AS IS\", WITHOUT WARRANTY OF ANY KIND, EXPRESS OR\nIMPLIED, INCLUDING BUT NOT LIMITED TO THE WARRANTIES OF MERCHANTABILITY,\nFITNESS FOR A PARTICULAR PURPOSE AND NONINFRINGEMENT. IN NO EVENT SHALL THE\nAUTHORS OR COPYRIGHT HOLDERS BE LIABLE FOR ANY CLAIM, DAMAGES OR OTHER\nLIABILITY, WHETHER IN AN ACTION OF CONTRACT, TORT OR OTHERWISE, ARISING FROM,\nOUT OF OR IN CONNECTION WITH THE SOFTWARE OR THE USE OR OTHER DEALINGS IN THE\nSOFTWARE.");
    assert(s@ =~= license_head() + signed_decimal(year as int) + license_tail());
    s
}

/// The UTC year of a Unix time, when the time is within chrono's range.
pub uninterp spec fn utc_year_of(seconds: i64) -> Option<i32>;

/// Relies on `chrono::DateTime::from_timestamp` (none when out of range) and
/// `Datelike::year`: the UTC year of a Unix time.
#[verifier::external_body]
fn utc_year(seconds: i64) -> (r: Option<i32>)
    ensures
        r == utc_year_of(seconds),
{
    match chrono::DateTime::from_timestamp(seconds, 0) {
        Some(d) => Some(chrono::Datelike::year(&d)),
        None => None,
    }
}

/// The UTC year of a clock reading of `since_epoch` seconds after the Unix
/// epoch; a reading before the epoch counts as the epoch.
pub open spec fn clock_year(since_epoch: Option<u64>) -> Option<i32> {
    utc_year_of(match since_epoch {
        Some(s) => if s > i64::MAX as u64 { i64::MAX } else { s as i64 },
        None => 0i64,
    })
}

/// The UTC year of `since_epoch` seconds after the Unix epoch.
pub fn year_at(since_epoch: Option<u64>) -> (r: Option<i32>)
    ensures
        r == clock_year(since_epoch),
{
    let s: i64 = match since_epoch {
        Some(s) => if s > i64::MAX as u64 { i64::MAX } else { s as i64 },
        None => 0,
    };
    utc_year(s)
}

/// The MIT license text for the year of a clock reading; none exactly when
/// that year is beyond the calendar's range.
pub fn license_text_at(since_epoch: Option<u64>) -> (r: Option<String>)
    ensures
        clock_year(since_epoch) is None ==> r is None,
        clock_year(since_epoch) matches Some(y) ==> (r matches Some(t)
            && t@ == license_head() + signed_decimal(y as int) + license_tail()),
{
    match year_at(since_epoch) {
        Some(y) => Some(license_text(y)),
        None => None,
    }
}

/// The MIT license text for the current year; none exactly when the clock's
/// year is beyond the calendar's range.
pub fn license_text_now() -> (r: Option<String>)
    ensures
        exists|e: Option<u64>| {
            &&& (clock_year(e) is None ==> r is None)
            &&& (clock_year(e) matches Some(y) ==> (r matches Some(t)
                && t@ == license_head() + signed_decimal(y as int) + license_tail()))
        },
{
    let e = crate::workspace::seconds_since_epoch();
    let r = license_text_at(e);
    assert({
        &&& (clock_year(e) is None ==> r is None)
        &&& (clock_year(e) matches Some(y) ==> (r matches Some(t)
            && t@ == license_head() + signed_decimal(y as int) + license_tail()))
    });
    r
}

} // verus!
