//! Schedule labels and system descriptors.

use vstd::prelude::*;

use vstd::string::StringExecFns;
use vstd::string::StringSliceAdditionalSpecFns;

use crate::error::BevyRubyError;

verus! {

/// Which of the engine's schedules a system runs in.
#[derive(Debug, Clone, Copy, PartialEq, Eq, Hash, Structural)]
pub enum ScheduleLabel {
    Startup,
    Update,
    FixedUpdate,
    PostUpdate,
}

/// An ASCII byte with an upper-case letter folded to lower case.
pub open spec fn lower_byte(x: u8) -> u8 {
    if 65 <= x <= 90 {
        (x + 32) as u8
    } else {
        x
    }
}

/// Whether two byte strings are equal up to ASCII case.
pub open spec fn ascii_eq_ignore_case(a: Seq<u8>, b: Seq<u8>) -> bool {
    a.len() == b.len() && forall|i: int|
        0 <= i < a.len() ==> lower_byte(#[trigger] a[i]) == lower_byte(b[i])
}

/// Whether `s` names the keyword `kw`, ignoring ASCII case.
fn ascii_matches(s: &str, kw: &str) -> (b: bool)
    ensures
        b == ascii_eq_ignore_case(s.spec_bytes(), kw.spec_bytes()),
{
    let sb = s.as_bytes();
    let kb = kw.as_bytes();
    let n = sb.len();
    if n != kb.len() {
        return false;
    }
    let mut i: usize = 0;
    while i < n
        invariant
            n == sb@.len(),
            n == kb@.len(),
            sb@ == s.spec_bytes(),
            kb@ == kw.spec_bytes(),
            i <= n,
            forall|j: int| 0 <= j < i ==> lower_byte(#[trigger] sb@[j]) == lower_byte(kb@[j]),
        decreases n - i,
    {
        let a = sb[i];
        let b = kb[i];
        let la = if 65 <= a && a <= 90 {
            a + 32
        } else {
            a
        };
        let lb = if 65 <= b && b <= 90 {
            b + 32
        } else {
            b
        };
        if la != lb {
            return false;
        }
        i = i + 1;
    }
    true
}

impl ScheduleLabel {
    /// Parses a schedule name, ignoring ASCII case; the first keyword that
    /// matches wins, and anything else is rejected with the offending name
    /// in the error.
    pub fn from_str(s: &str) -> (r: Result<ScheduleLabel, BevyRubyError>)
        ensures
            ({
                let b = s.spec_bytes();
                &&& (ascii_eq_ignore_case(b, "startup".spec_bytes()) ==> r == Result::<
                    ScheduleLabel,
                    BevyRubyError,
                >::Ok(ScheduleLabel::Startup))
                &&& (!ascii_eq_ignore_case(b, "startup".spec_bytes()) && ascii_eq_ignore_case(
                    b,
                    "update".spec_bytes(),
                ) ==> r == Result::<ScheduleLabel, BevyRubyError>::Ok(ScheduleLabel::Update))
                &&& (!ascii_eq_ignore_case(b, "startup".spec_bytes()) && !ascii_eq_ignore_case(
                    b,
                    "update".spec_bytes(),
                ) && (ascii_eq_ignore_case(b, "fixed_update".spec_bytes())
                    || ascii_eq_ignore_case(b, "fixedupdate".spec_bytes())) ==> r == Result::<
                    ScheduleLabel,
                    BevyRubyError,
                >::Ok(ScheduleLabel::FixedUpdate))
                &&& (!ascii_eq_ignore_case(b, "startup".spec_bytes()) && !ascii_eq_ignore_case(
                    b,
                    "update".spec_bytes(),
                ) && !ascii_eq_ignore_case(b, "fixed_update".spec_bytes())
                    && !ascii_eq_ignore_case(b, "fixedupdate".spec_bytes()) && (
                ascii_eq_ignore_case(b, "post_update".spec_bytes()) || ascii_eq_ignore_case(
                    b,
                    "postupdate".spec_bytes(),
                )) ==> r == Result::<ScheduleLabel, BevyRubyError>::Ok(ScheduleLabel::PostUpdate))
                &&& (!ascii_eq_ignore_case(b, "startup".spec_bytes()) && !ascii_eq_ignore_case(
                    b,
                    "update".spec_bytes(),
                ) && !ascii_eq_ignore_case(b, "fixed_update".spec_bytes())
                    && !ascii_eq_ignore_case(b, "fixedupdate".spec_bytes())
                    && !ascii_eq_ignore_case(b, "post_update".spec_bytes())
                    && !ascii_eq_ignore_case(b, "postupdate".spec_bytes()) ==> (match r {
                    Result::Err(BevyRubyError::SystemError(m)) => m@ == "Unknown schedule: "@
                        + s@,
                    _ => false,
                }))
            }),
    {
        if ascii_matches(s, "startup") {
            Ok(ScheduleLabel::Startup)
        } else if ascii_matches(s, "update") {
            Ok(ScheduleLabel::Update)
        } else if ascii_matches(s, "fixed_update") || ascii_matches(s, "fixedupdate") {
            Ok(ScheduleLabel::FixedUpdate)
        } else if ascii_matches(s, "post_update") || ascii_matches(s, "postupdate") {
            Ok(ScheduleLabel::PostUpdate)
        } else {
            let msg = "Unknown schedule: ".to_owned().concat(s);
            Err(BevyRubyError::SystemError(msg))
        }
    }
}

/// Declares a scripted system: the schedule it runs in and the names of the
/// parameter types it takes.
#[derive(Clone)]
pub struct SystemDescriptor {
    pub schedule: ScheduleLabel,
    pub param_types: Vec<String>,
}

impl SystemDescriptor {
    pub fn new(schedule: ScheduleLabel) -> (r: SystemDescriptor)
        ensures
            r.schedule == schedule,
            r.param_types@ == Seq::<String>::empty(),
    {
        SystemDescriptor { schedule, param_types: Vec::new() }
    }

    /// Appends one parameter type name.
    pub fn with_param(self, param_type: &str) -> (r: SystemDescriptor)
        ensures
            r.schedule == self.schedule,
            r.param_types@.len() == self.param_types@.len() + 1,
            forall|i: int|
                0 <= i < self.param_types@.len() ==> r.param_types@[i] == self.param_types@[i],
            r.param_types@.last()@ == param_type@,
    {
        let mut r = self;
        r.param_types.push(param_type.to_owned());
        r
    }
}

} // verus!
