//! Configurable packet filter: severity threshold and packet-type allowlist.
use vstd::prelude::*;
use crate::frame::{Frame, Header};
use crate::shim_heapless::{allowlist_as_slice, allowlist_contents, allowlist_new, allowlist_push};

verus! {

/// Maximum number of entries in the packet-type allowlist.
pub const MAX_FILTER_TYPES: usize = 8;

/// Filter applied after validation.
///
/// A frame passes when its severity byte is at least `min_severity` and,
/// if an allowlist is set, its packet-type byte is in the list.
#[derive(Debug, Clone, PartialEq, Eq)]
pub struct FilterConfig {
    /// Minimum severity byte; frames below it are dropped.
    pub min_severity: u8,
    /// Allowed packet-type bytes; `None` lets every type through.
    pub type_allowlist: Option<heapless::Vec<u8, MAX_FILTER_TYPES>>,
}

/// Whether a frame with header `h` passes a filter with threshold `min` and
/// allowlist `list`.
pub open spec fn allows(min: u8, list: Option<Seq<u8>>, h: Header) -> bool {
    &&& h.severity >= min
    &&& list matches Some(l) ==> l.contains(h.packet_type)
}

impl FilterConfig {
    /// The allowlist's contents, if one is set.
    pub open spec fn spec_allowlist(&self) -> Option<Seq<u8>> {
        match self.type_allowlist {
            Some(v) => Some(allowlist_contents(v)),
            None => None,
        }
    }

    /// Whether this filter passes a frame with header `h`.
    pub open spec fn spec_allows(&self, h: Header) -> bool {
        allows(self.min_severity, self.spec_allowlist(), h)
    }

    /// A filter that passes every frame.
    pub fn allow_all() -> (c: Self)
        ensures
            c.min_severity == 0,
            c.type_allowlist is None,
            forall|h: Header| #[trigger] c.spec_allows(h),
    {
        FilterConfig { min_severity: 0x00, type_allowlist: None }
    }

    /// Whether `frame` passes the filter.
    pub fn allow(&self, frame: &Frame) -> (b: bool)
        ensures
            b == self.spec_allows(frame.header),
    {
        if frame.header.severity < self.min_severity {
            return false;
        }
        match &self.type_allowlist {
            Some(list) => {
                let items = allowlist_as_slice(list);
                let t = frame.header.packet_type;
                let mut i: usize = 0;
                while i < items.len()
                    invariant
                        i <= items@.len(),
                        self.spec_allowlist() == Some(items@),
                        frame.header.severity >= self.min_severity,
                        t == frame.header.packet_type,
                        forall|j: int| 0 <= j < i ==> items@[j] != t,
                    decreases items@.len() - i,
                {
                    if items[i] == t {
                        assert(items@[i as int] == t);
                        return true;
                    }
                    i += 1;
                }
                false
            },
            None => true,
        }
    }
}

impl FilterConfig {
    /// Builds a filter from a threshold and a list of allowed type bytes, as
    /// given on a command line: an empty list lets every type through; a
    /// list longer than [`MAX_FILTER_TYPES`] is cut to its first entries,
    /// and `truncated` reports that.
    pub fn from_parts(min_severity: u8, allow_types: &[u8]) -> (r: (FilterConfig, bool))
        ensures
            r.0.min_severity == min_severity,
            allow_types@.len() == 0 ==> r.0.type_allowlist is None,
            allow_types@.len() > 0 ==> r.0.spec_allowlist() == Some(
                allow_types@.take(
                    if allow_types@.len() > MAX_FILTER_TYPES {
                        MAX_FILTER_TYPES as int
                    } else {
                        allow_types@.len() as int
                    },
                ),
            ),
            r.1 == (allow_types@.len() > MAX_FILTER_TYPES),
    {
        if allow_types.len() == 0 {
            return (FilterConfig { min_severity, type_allowlist: None }, false);
        }
        let mut list = allowlist_new();
        let mut i: usize = 0;
        let mut truncated = false;
        while i < allow_types.len()
            invariant_except_break
                !truncated,
            invariant
                i <= allow_types@.len(),
                i <= MAX_FILTER_TYPES,
                allowlist_contents(list) == allow_types@.take(i as int),
            ensures
                allowlist_contents(list) == allow_types@.take(i as int),
                truncated ==> i == MAX_FILTER_TYPES && i < allow_types@.len(),
                !truncated ==> i == allow_types@.len(),
            decreases allow_types@.len() - i,
        {
            if allowlist_push(&mut list, allow_types[i]).is_err() {
                truncated = true;
                break;
            }
            assert(allow_types@.take(i + 1) =~= allow_types@.take(i as int).push(allow_types@[i as int]));
            i += 1;
        }
        (FilterConfig { min_severity, type_allowlist: Some(list) }, truncated)
    }
}

impl Default for FilterConfig {
    fn default() -> (c: Self)
        ensures
            c.min_severity == 0,
            c.type_allowlist is None,
    {
        Self::allow_all()
    }
}

/// What a filter passes, in terms of its settings: a frame passes exactly
/// when its severity byte is at least the threshold and, when an allowlist
/// is set, its type byte equals some entry of the list, wherever that entry
/// stands.
pub proof fn lemma_filter_decision(min: u8, list: Option<Seq<u8>>, h: Header)
    ensures
        allows(min, list, h) <==> {
            &&& h.severity >= min
            &&& (list matches Some(l) ==> exists|i: int| 0 <= i < l.len() && l[i] == h.packet_type)
        },
{
    if let Some(l) = list {
        if exists|i: int| 0 <= i < l.len() && l[i] == h.packet_type {
            let i = choose|i: int| 0 <= i < l.len() && l[i] == h.packet_type;
            assert(l.contains(h.packet_type));
        }
    }
}

/// The order of the allowlist does not matter: two allowlists holding the
/// same type bytes pass the same frames.
pub proof fn lemma_allowlist_order_irrelevant(min: u8, l1: Seq<u8>, l2: Seq<u8>, h: Header)
    requires
        forall|t: u8| l1.contains(t) <==> l2.contains(t),
    ensures
        allows(min, Some(l1), h) == allows(min, Some(l2), h),
{
    lemma_filter_decision(min, Some(l1), h);
    lemma_filter_decision(min, Some(l2), h);
    assert(l1.contains(h.packet_type) <==> l2.contains(h.packet_type));
}

} // verus!
