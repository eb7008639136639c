//! Zero-config discovery: which advertised instance is the one that is looked for.
use vstd::prelude::*;

use crate::text::{joined, same_text};

verus! {

/// The service type under which a listening machine advertises itself.
pub open spec fn service_type_text() -> Seq<char> {
    "_kayiver._tcp.local."@
}

/// The service type under which a listening machine advertises itself.
pub fn service_type() -> (r: &'static str)
    ensures
        r@ == service_type_text(),
{
    "_kayiver._tcp.local."
}

/// The full name of an advertised instance: its name, a dot and the service type.
pub open spec fn full_name(instance: Seq<char>) -> Seq<char> {
    instance + "."@ + service_type_text()
}

/// Is this the full name of the instance that is looked for?
pub fn is_instance(fullname: &str, instance: &str) -> (r: bool)
    ensures
        r == (fullname@ == full_name(instance@)),
{
    let want: String = joined(joined(instance, ".").as_str(), service_type());
    same_text(fullname, want.as_str())
}

/// A full name names one instance.
pub proof fn law_full_names_are_distinct(a: Seq<char>, b: Seq<char>)
    requires
        full_name(a) == full_name(b),
    ensures
        a == b,
{
    let tail = "."@ + service_type_text();
    assert(full_name(a) =~= a + tail);
    assert(full_name(b) =~= b + tail);
    assert((a + tail).take(a.len() as int) =~= a);
    assert((b + tail).take(b.len() as int) =~= b);
    assert((a + tail).len() == (b + tail).len());
}

/// The host name that an advertisement carries.
pub fn advertised_host(machine: &str) -> (r: String)
    ensures
        r@ == machine@ + ".local."@,
{
    joined(machine, ".local.")
}

} // verus!
