//! Choosing a physical device, its queue families and memory types.
//!
//! The renderer queries the driver; these functions decide from what it answered.
//! Queue and memory property flags are the raw bits of the `ash` flag types.

use vstd::prelude::*;
use vstd::string::StringExecFns;

use crate::error::VulkanError;

verus! {

/// `VK_QUEUE_GRAPHICS_BIT`
pub const QUEUE_GRAPHICS: u32 = 0x1;

/// Whether flags `f` contain every bit of `required` (as `ash`'s `contains`).
pub open spec fn flags_contain(f: u32, required: u32) -> bool {
    f & required == required
}

/// Whether a queue family with flags `f` supports graphics.
pub open spec fn supports_graphics(f: u32) -> bool {
    flags_contain(f, QUEUE_GRAPHICS)
}

/// Whether the presentation query for a family answered "supported".
pub open spec fn presents(r: Result<bool, i32>) -> bool {
    r == Ok::<bool, i32>(true)
}

/// Whether the presentation query for a family failed.
pub open spec fn query_failed(r: Result<bool, i32>) -> bool {
    r is Err
}

/// The queue families chosen for graphics and for presentation.
#[derive(Debug, Clone, Copy, PartialEq, Eq, Structural)]
pub struct QueueFamilyChoice {
    /// Index of the graphics queue family
    pub graphics_family: u32,
    /// Index of the presentation queue family
    pub present_family: u32,
}

/// Index of the first element of `s` satisfying `p`, if any.
pub open spec fn first_where<A>(s: Seq<A>, p: spec_fn(A) -> bool) -> Option<int>
    decreases s.len(),
{
    if s.len() == 0 {
        None
    } else {
        match first_where(s.drop_last(), p) {
            Some(i) => Some(i),
            None => if p(s.last()) {
                Some(s.len() - 1)
            } else {
                None
            },
        }
    }
}

/// The first index is an index whose element satisfies `p`, and no earlier one does;
/// on a prefix it is the first index of the whole when that lies in the prefix.
pub proof fn lemma_first_where<A>(s: Seq<A>, p: spec_fn(A) -> bool, k: int)
    requires
        0 <= k <= s.len(),
    ensures
        first_where(s, p) matches Some(i) ==> 0 <= i < s.len() && p(s[i]) && forall|j: int| 0 <= j < i ==> !p(#[trigger] s[j]),
        first_where(s, p) is None ==> forall|j: int| 0 <= j < s.len() ==> !p(#[trigger] s[j]),
        first_where(s.take(k), p) == if first_where(s, p) is Some && first_where(s, p)->0 < k {
            first_where(s, p)
        } else {
            None
        },
    decreases s.len(),
{
    if s.len() > 0 {
        let t = s.drop_last();
        if k == s.len() {
            assert(s.take(k) =~= s);
            lemma_first_where(t, p, t.len() as int);
        } else {
            assert(s.take(k) =~= t.take(k));
            lemma_first_where(t, p, k);
        }
        assert forall|j: int| 0 <= j < t.len() implies t[j] == s[j] by {}
    } else {
        assert(s.take(k) =~= s);
    }
}

/// Index of the first family that supports graphics, if any.
pub open spec fn first_graphics(flags: Seq<u32>) -> Option<int> {
    first_where(flags, graphics_pred())
}

/// Selects the families that support graphics.
pub open spec fn graphics_pred() -> spec_fn(u32) -> bool {
    |f: u32| supports_graphics(f)
}

/// Selects the presentation answers "supported".
pub open spec fn present_pred() -> spec_fn(Result<bool, i32>) -> bool {
    |r: Result<bool, i32>| presents(r)
}

/// Selects the failed presentation queries.
pub open spec fn failure_pred() -> spec_fn(Result<bool, i32>) -> bool {
    |r: Result<bool, i32>| query_failed(r)
}

/// Index of the first family whose presentation query answered "supported", if any.
pub open spec fn first_present(ps: Seq<Result<bool, i32>>) -> Option<int> {
    first_where(ps, present_pred())
}

/// Index of the first family whose presentation query failed, if any.
pub open spec fn first_failure(ps: Seq<Result<bool, i32>>) -> Option<int> {
    first_where(ps, failure_pred())
}

/// Families are examined in order until both a graphics and a presenting family were
/// seen; a failed presentation query met on the way aborts the search.  Whether the
/// failure at `e` is met: not both kinds of family were found before it.
pub open spec fn failure_met(flags: Seq<u32>, ps: Seq<Result<bool, i32>>, e: int) -> bool {
    !(first_graphics(flags) is Some && first_graphics(flags)->0 < e && first_present(ps) is Some && first_present(ps)->0 < e)
}

/// Errors of the queue family choice, without the data of an API error.
#[derive(Debug, Clone, Copy, PartialEq, Eq, Structural)]
pub enum QueueChoiceOutcome {
    /// Both families found
    Found,
    /// A presentation query failed (the error is passed through)
    QueryFailed,
    /// No family supports graphics
    NoGraphics,
    /// No family supports presentation
    NoPresent,
}

/// How choosing queue families ends.
pub open spec fn queue_choice_outcome(flags: Seq<u32>, ps: Seq<Result<bool, i32>>) -> QueueChoiceOutcome {
    if first_failure(ps) matches Some(e) && failure_met(flags, ps, e) {
        QueueChoiceOutcome::QueryFailed
    } else if first_graphics(flags) is None {
        QueueChoiceOutcome::NoGraphics
    } else if first_present(ps) is None {
        QueueChoiceOutcome::NoPresent
    } else {
        QueueChoiceOutcome::Found
    }
}

/// Choose the graphics and presentation queue families: the first family supporting
/// graphics and the first whose presentation query answered "supported", examining
/// families in order and stopping once both are found.  A failed presentation query
/// met before that is returned as an API error.  A failed query is given by the raw
/// value of its `vk::Result`.
pub fn choose_queue_families(queue_flags: &[u32], present_support: &[Result<bool, i32>]) -> (r: Result<
    QueueFamilyChoice,
    VulkanError,
>)
    requires
        queue_flags@.len() == present_support@.len(),
        queue_flags@.len() <= u32::MAX,
    ensures
        ({
            let flags = queue_flags@;
            let ps = present_support@;
            match queue_choice_outcome(flags, ps) {
                QueueChoiceOutcome::Found => r matches Ok(c) && first_graphics(flags) == Some(c.graphics_family as int)
                    && first_present(ps) == Some(c.present_family as int),
                QueueChoiceOutcome::QueryFailed => r matches Err(VulkanError::Api(code))
                    && ps[first_failure(ps)->0] == Err::<bool, i32>(code),
                QueueChoiceOutcome::NoGraphics => r matches Err(VulkanError::InitializationFailed(m))
                    && m@ == "No graphics queue family found"@,
                QueueChoiceOutcome::NoPresent => r matches Err(VulkanError::InitializationFailed(m))
                    && m@ == "No present queue family found"@,
            }
        }),
{
    let ghost flags = queue_flags@;
    let ghost ps = present_support@;
    let mut graphics_family: Option<u32> = None;
    let mut present_family: Option<u32> = None;
    let mut i: usize = 0;
    while i < queue_flags.len()
        invariant_except_break
            !(graphics_family is Some && present_family is Some),
        invariant
            flags == queue_flags@,
            ps == present_support@,
            flags.len() == ps.len(),
            flags.len() <= u32::MAX,
            i <= flags.len(),
            first_where(flags.take(i as int), graphics_pred()) == match graphics_family {
                Some(g) => Some(g as int),
                None => None::<int>,
            },
            first_where(ps.take(i as int), present_pred()) == match present_family {
                Some(p) => Some(p as int),
                None => None::<int>,
            },
            first_where(ps.take(i as int), failure_pred()) is None,
        ensures
            graphics_family is Some && present_family is Some || i == flags.len(),
            i <= flags.len(),
            first_where(flags.take(i as int), graphics_pred()) == match graphics_family {
                Some(g) => Some(g as int),
                None => None::<int>,
            },
            first_where(ps.take(i as int), present_pred()) == match present_family {
                Some(p) => Some(p as int),
                None => None::<int>,
            },
            first_where(ps.take(i as int), failure_pred()) is None,
        decreases flags.len() - i,
    {
        proof {
            assert(flags.take(i as int + 1).drop_last() =~= flags.take(i as int));
            assert(ps.take(i as int + 1).drop_last() =~= ps.take(i as int));
            lemma_first_where(flags, graphics_pred(), i as int);
            lemma_first_where(ps, present_pred(), i as int);
            lemma_first_where(ps, failure_pred(), i as int);
            assert(flags.take(i as int + 1).last() == flags[i as int]);
            assert(ps.take(i as int + 1).last() == ps[i as int]);
        }
        let ghost g0 = graphics_family;
        let ghost p0 = present_family;
        let index = i as u32;
        if queue_flags[i] & QUEUE_GRAPHICS == QUEUE_GRAPHICS && graphics_family.is_none() {
            graphics_family = Some(index);
        }
        match &present_support[i] {
            Ok(true) => {
                if present_family.is_none() {
                    present_family = Some(index);
                }
            },
            Ok(false) => {},
            Err(code) => {
                proof {
                    assert(first_where(ps.take(i as int + 1), failure_pred()) == Some(i as int));
                    lemma_first_where(ps, failure_pred(), i as int + 1);
                    lemma_first_where(flags, graphics_pred(), i as int);
                    lemma_first_where(ps, present_pred(), i as int);
                    lemma_first_where(flags, graphics_pred(), flags.len() as int);
                }
                return Err(VulkanError::Api(*code));
            },
        }
        proof {
            assert(first_where(flags.take(i as int + 1), graphics_pred()) == match graphics_family {
                Some(g) => Some(g as int),
                None => None::<int>,
            });
            assert(first_where(ps.take(i as int + 1), present_pred()) == match present_family {
                Some(p) => Some(p as int),
                None => None::<int>,
            });
            assert(first_where(ps.take(i as int + 1), failure_pred()) is None);
        }
        i = i + 1;
        if graphics_family.is_some() && present_family.is_some() {
            break;
        }
    }
    proof {
        lemma_first_where(flags, graphics_pred(), i as int);
        lemma_first_where(ps, present_pred(), i as int);
        lemma_first_where(ps, failure_pred(), i as int);
        assert(flags.take(flags.len() as int) =~= flags);
        assert(ps.take(ps.len() as int) =~= ps);
    }
    let graphics_family = match graphics_family {
        Some(g) => g,
        None => {
            return Err(VulkanError::InitializationFailed(String::from_str("No graphics queue family found")));
        },
    };
    let present_family = match present_family {
        Some(p) => p,
        None => {
            return Err(VulkanError::InitializationFailed(String::from_str("No present queue family found")));
        },
    };
    Ok(QueueFamilyChoice { graphics_family, present_family })
}

/// The bytes of the name of the swapchain device extension, `VK_KHR_swapchain`.
pub open spec fn swapchain_name_bytes() -> Seq<u8> {
    seq![86u8, 75u8, 95u8, 75u8, 72u8, 82u8, 95u8, 115u8, 119u8, 97u8, 112u8, 99u8, 104u8, 97u8, 105u8, 110u8]
}

/// Calls `ash::extensions::khr::Swapchain::name()` and copies its bytes without the
/// terminating NUL.  Per `ash`'s source the name is the constant `VK_KHR_swapchain`.
#[verifier::external_body]
fn swapchain_extension_name() -> (n: Vec<u8>)
    ensures
        n@ == swapchain_name_bytes(),
{
    ash::extensions::khr::Swapchain::name().to_bytes().to_vec()
}

/// Whether two byte strings are equal.
fn bytes_equal(a: &[u8], b: &[u8]) -> (r: bool)
    ensures
        r == (a@ == b@),
{
    if a.len() != b.len() {
        return false;
    }
    let mut i: usize = 0;
    while i < a.len()
        invariant
            a@.len() == b@.len(),
            i <= a@.len(),
            forall|j: int| 0 <= j < i ==> a@[j] == b@[j],
        decreases a@.len() - i,
    {
        if a[i] != b[i] {
            return false;
        }
        i = i + 1;
    }
    assert(a@ =~= b@);
    true
}

/// Whether the device offers every required extension: the swapchain extension must
/// be among `available` (extension names as bytes, without terminating NUL).
pub fn has_required_extensions(available: &[Vec<u8>]) -> (b: bool)
    ensures
        b == exists|i: int| 0 <= i < available@.len() && #[trigger] available@[i]@ == swapchain_name_bytes(),
{
    let required = swapchain_extension_name();
    let mut i: usize = 0;
    while i < available.len()
        invariant
            required@ == swapchain_name_bytes(),
            i <= available@.len(),
            forall|j: int| 0 <= j < i ==> #[trigger] available@[j]@ != swapchain_name_bytes(),
        decreases available@.len() - i,
    {
        if bytes_equal(available[i].as_slice(), required.as_slice()) {
            assert(available@[i as int]@ == swapchain_name_bytes());
            return true;
        }
        i = i + 1;
    }
    false
}

/// Decide whether a physical device is suitable, from what the driver answered about
/// it: its queue families are chosen as by [`choose_queue_families`]; then the
/// extension list (or the error of listing it, by the raw value of its `vk::Result`)
/// must contain the swapchain extension.
pub fn evaluate_device(
    queue_flags: &[u32],
    present_support: &[Result<bool, i32>],
    extensions: &Result<Vec<Vec<u8>>, i32>,
) -> (r: Result<QueueFamilyChoice, VulkanError>)
    requires
        queue_flags@.len() == present_support@.len(),
        queue_flags@.len() <= u32::MAX,
    ensures
        ({
            let flags = queue_flags@;
            let ps = present_support@;
            match queue_choice_outcome(flags, ps) {
                QueueChoiceOutcome::Found => match extensions {
                    Err(code) => r matches Err(VulkanError::Api(c)) && c == *code,
                    Ok(list) => if exists|i: int| 0 <= i < list@.len() && #[trigger] list@[i]@ == swapchain_name_bytes() {
                        r matches Ok(c) && first_graphics(flags) == Some(c.graphics_family as int)
                            && first_present(ps) == Some(c.present_family as int)
                    } else {
                        r matches Err(VulkanError::InitializationFailed(m))
                            && m@ == "Required device extensions not supported"@
                    },
                },
                QueueChoiceOutcome::QueryFailed => r matches Err(VulkanError::Api(code))
                    && ps[first_failure(ps)->0] == Err::<bool, i32>(code),
                QueueChoiceOutcome::NoGraphics => r matches Err(VulkanError::InitializationFailed(m))
                    && m@ == "No graphics queue family found"@,
                QueueChoiceOutcome::NoPresent => r matches Err(VulkanError::InitializationFailed(m))
                    && m@ == "No present queue family found"@,
            }
        }),
{
    let choice = choose_queue_families(queue_flags, present_support)?;
    match extensions {
        Err(code) => Err(VulkanError::Api(*code)),
        Ok(list) => {
            if !has_required_extensions(list.as_slice()) {
                return Err(
                    VulkanError::InitializationFailed(String::from_str("Required device extensions not supported")),
                );
            }
            Ok(choice)
        },
    }
}

/// Pick the first suitable device: `evaluations` holds the verdict on each device, in
/// the order the driver listed them.
pub fn select_suitable_device(evaluations: &[Result<QueueFamilyChoice, VulkanError>]) -> (r: Result<
    (usize, QueueFamilyChoice),
    VulkanError,
>)
    ensures
        match r {
            Ok((i, c)) => {
                &&& i < evaluations@.len()
                &&& evaluations@[i as int] matches Ok(c2) && c2 == c
                &&& forall|j: int| 0 <= j < i ==> #[trigger] evaluations@[j] is Err
            },
            Err(e) => (e matches VulkanError::InitializationFailed(m) && m@ == "No suitable GPU found"@)
                && forall|j: int| 0 <= j < evaluations@.len() ==> #[trigger] evaluations@[j] is Err,
        },
{
    let mut i: usize = 0;
    while i < evaluations.len()
        invariant
            i <= evaluations@.len(),
            forall|j: int| 0 <= j < i ==> #[trigger] evaluations@[j] is Err,
        decreases evaluations@.len() - i,
    {
        match &evaluations[i] {
            Ok(c) => {
                return Ok((i, *c));
            },
            Err(_) => {},
        }
        i = i + 1;
    }
    Err(VulkanError::InitializationFailed(String::from_str("No suitable GPU found")))
}

/// Whether memory type `i`, with property flags `f`, may hold a resource whose allowed
/// types are the bits of `type_filter` and which needs the properties `properties`.
pub open spec fn memory_type_suitable(type_filter: u32, i: int, f: u32, properties: u32) -> bool {
    &&& 0 <= i < 32
    &&& type_filter & (1u32 << (i as u32)) != 0u32
    &&& flags_contain(f, properties)
}

/// Selects the suitable memory types, by index.
pub open spec fn memory_pred(type_filter: u32, flags: Seq<u32>, properties: u32) -> spec_fn(int) -> bool {
    |i: int| memory_type_suitable(type_filter, i, flags[i], properties)
}

/// The indices `0 .. n`.
pub open spec fn indices(n: nat) -> Seq<int> {
    Seq::new(n, |i: int| i)
}

/// Index of the first memory type that may hold the resource, if any.
pub open spec fn first_memory_type(type_filter: u32, flags: Seq<u32>, properties: u32) -> Option<int> {
    first_where(indices(flags.len()), memory_pred(type_filter, flags, properties))
}

/// Find the first memory type (of the device's, whose property flags are
/// `memory_type_flags`) allowed by `type_filter` and having all of `properties`.
pub fn find_memory_type(type_filter: u32, memory_type_flags: &[u32], properties: u32) -> (r: Result<u32, VulkanError>)
    requires
        memory_type_flags@.len() <= 32,
    ensures
        match first_memory_type(type_filter, memory_type_flags@, properties) {
            Some(i) => r matches Ok(k) && k == i,
            None => r matches Err(VulkanError::InitializationFailed(m)) && m@ == "Failed to find suitable memory type"@,
        },
{
    let ghost flags = memory_type_flags@;
    let ghost idx = indices(flags.len());
    let ghost pred = memory_pred(type_filter, flags, properties);
    let mut i: usize = 0;
    while i < memory_type_flags.len()
        invariant
            flags == memory_type_flags@,
            flags.len() <= 32,
            idx == indices(flags.len()),
            pred == memory_pred(type_filter, flags, properties),
            i <= flags.len(),
            first_where(idx.take(i as int), pred) is None,
        decreases flags.len() - i,
    {
        proof {
            assert(idx.take(i as int + 1).drop_last() =~= idx.take(i as int));
            assert(idx.take(i as int + 1).last() == i as int);
        }
        let bit: u32 = 1u32 << (i as u32);
        if type_filter & bit != 0 && memory_type_flags[i] & properties == properties {
            proof {
                assert(pred(i as int));
                lemma_first_where(idx, pred, i as int + 1);
            }
            return Ok(i as u32);
        }
        i = i + 1;
    }
    proof {
        assert(idx.take(i as int) =~= idx);
    }
    Err(VulkanError::InitializationFailed(String::from_str("Failed to find suitable memory type")))
}

} // verus!
