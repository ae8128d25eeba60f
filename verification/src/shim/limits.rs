//! Resource limits of a process.
use vstd::prelude::*;

use crate::errno::Errno;

verus! {

/// The limit on open files that a process starts with.
pub const RLIMIT_NOFILE_CUR: u64 = 1048576;

/// The highest limit on open files.
pub const RLIMIT_NOFILE_MAX: u64 = 1048576;

/// The number of resources.
pub const RLIM_NLIMITS: usize = 16;

/// A resource that can be limited.
#[derive(Clone, Copy, PartialEq, Eq, Structural, Debug)]
pub enum RlimitResource {
    CPU,
    FSIZE,
    DATA,
    STACK,
    CORE,
    RSS,
    NPROC,
    NOFILE,
    MEMLOCK,
    AS,
    LOCKS,
    SIGPENDING,
    MSGQUEUE,
    NICE,
    RTPRIO,
    RTTIME,
}

impl RlimitResource {
    /// The number of the resource.
    pub open spec fn spec_index(self) -> int {
        match self {
            RlimitResource::CPU => 0,
            RlimitResource::FSIZE => 1,
            RlimitResource::DATA => 2,
            RlimitResource::STACK => 3,
            RlimitResource::CORE => 4,
            RlimitResource::RSS => 5,
            RlimitResource::NPROC => 6,
            RlimitResource::NOFILE => 7,
            RlimitResource::MEMLOCK => 8,
            RlimitResource::AS => 9,
            RlimitResource::LOCKS => 10,
            RlimitResource::SIGPENDING => 11,
            RlimitResource::MSGQUEUE => 12,
            RlimitResource::NICE => 13,
            RlimitResource::RTPRIO => 14,
            RlimitResource::RTTIME => 15,
        }
    }

    /// The number of the resource.
    pub fn index(self) -> (r: usize)
        ensures
            r == self.spec_index(),
            r < RLIM_NLIMITS,
    {
        match self {
            RlimitResource::CPU => 0,
            RlimitResource::FSIZE => 1,
            RlimitResource::DATA => 2,
            RlimitResource::STACK => 3,
            RlimitResource::CORE => 4,
            RlimitResource::RSS => 5,
            RlimitResource::NPROC => 6,
            RlimitResource::NOFILE => 7,
            RlimitResource::MEMLOCK => 8,
            RlimitResource::AS => 9,
            RlimitResource::LOCKS => 10,
            RlimitResource::SIGPENDING => 11,
            RlimitResource::MSGQUEUE => 12,
            RlimitResource::NICE => 13,
            RlimitResource::RTPRIO => 14,
            RlimitResource::RTTIME => 15,
        }
    }
}

/// A limit: the one in force, and the highest that it can be set to.
#[derive(Clone, Copy, PartialEq, Eq, Structural, Debug)]
pub struct Rlimit {
    pub rlim_cur: u64,
    pub rlim_max: u64,
}

/// The limit of a resource that a process starts with.
pub open spec fn initial_limit(resource: RlimitResource, stack_size: u64) -> Rlimit {
    match resource {
        RlimitResource::NOFILE => Rlimit {
            rlim_cur: RLIMIT_NOFILE_CUR,
            rlim_max: RLIMIT_NOFILE_MAX,
        },
        RlimitResource::STACK => Rlimit { rlim_cur: stack_size, rlim_max: u64::MAX },
        _ => Rlimit { rlim_cur: 0, rlim_max: 0 },
    }
}

/// The limits of a process, one for each resource.
pub struct ResourceLimits {
    limits: Vec<Rlimit>,
}

/// What a change of limits came to.
#[derive(Clone, Copy, PartialEq, Eq, Structural, Debug)]
pub struct LimitChange {
    /// The limit before.
    pub old: Rlimit,
    /// The highest file descriptor from now on, where the change sets it.
    pub max_fd: Option<u64>,
}

impl ResourceLimits {
    /// There is a limit for each resource.
    pub closed spec fn well_formed(&self) -> bool {
        self.limits@.len() == RLIM_NLIMITS
    }

    /// The limit of a resource.
    pub closed spec fn limit(&self, resource: RlimitResource) -> Rlimit {
        self.limits@[resource.spec_index()]
    }

    /// The number of signals that may wait for a thread or a process, where it is limited.
    pub open spec fn sigpending(&self) -> u64 {
        self.limit(RlimitResource::SIGPENDING).rlim_cur
    }

    /// The limits that a process starts with: only those on open files and on the stack are not zero.
    pub fn new(stack_size: u64) -> (r: ResourceLimits)
        ensures
            r.well_formed(),
            forall|resource: RlimitResource| #[trigger]
                r.limit(resource) == initial_limit(resource, stack_size),
    {
        let mut limits: Vec<Rlimit> = Vec::new();
        let mut i: usize = 0;
        while i < RLIM_NLIMITS
            invariant
                i <= RLIM_NLIMITS,
                limits@.len() == i,
                forall|j: int|
                    0 <= j < i ==> #[trigger] limits@[j] == (Rlimit { rlim_cur: 0, rlim_max: 0 }),
            decreases RLIM_NLIMITS - i,
        {
            limits.push(Rlimit { rlim_cur: 0, rlim_max: 0 });
            i = i + 1;
        }
        limits.set(
            RlimitResource::NOFILE.index(),
            Rlimit { rlim_cur: RLIMIT_NOFILE_CUR, rlim_max: RLIMIT_NOFILE_MAX },
        );
        limits.set(
            RlimitResource::STACK.index(),
            Rlimit { rlim_cur: stack_size, rlim_max: u64::MAX },
        );
        ResourceLimits { limits }
    }

    /// The limit of a resource.
    pub fn get_rlimit(&self, resource: RlimitResource) -> (r: Rlimit)
        requires
            self.well_formed(),
        ensures
            r == self.limit(resource),
    {
        self.limits[resource.index()]
    }

    /// The limit of a resource that is in force.
    pub fn get_rlimit_cur(&self, resource: RlimitResource) -> (r: u64)
        requires
            self.well_formed(),
        ensures
            r == self.limit(resource).rlim_cur,
    {
        self.limits[resource.index()].rlim_cur
    }

    /// Sets the limit of a resource.
    pub fn set_rlimit(&mut self, resource: RlimitResource, new_limit: Rlimit)
        requires
            old(self).well_formed(),
        ensures
            final(self).well_formed(),
            forall|other: RlimitResource| #[trigger]
                final(self).limit(other) == (if other == resource {
                    new_limit
                } else {
                    old(self).limit(other)
                }),
    {
        self.limits.set(resource.index(), new_limit);
        assert forall|other: RlimitResource| #[trigger]
            self.limit(other) == (if other == resource {
                new_limit
            } else {
                old(self).limit(other)
            }) by {
            if other != resource {
                assert(other.spec_index() != resource.spec_index());
            }
        }
    }

    /// Reads the limit of a resource, and sets it where a new one is given. Limits on open files and
    /// on the stack are known; those on open files can be set.
    pub fn do_prlimit(&mut self, resource: RlimitResource, new_limit: Option<Rlimit>) -> (r: Result<
        LimitChange,
        Errno,
    >)
        requires
            old(self).well_formed(),
            is_supported(old(self).limit(resource), resource, new_limit),
        ensures
            final(self).well_formed(),
            r == prlimit_result(old(self).limit(resource), resource, new_limit),
            limits_after(
                *old(self),
                resource,
                if r is Ok {
                    new_limit
                } else {
                    None
                },
                *final(self),
            ),
    {
        let old_rlimit = match resource {
            RlimitResource::NOFILE | RlimitResource::STACK => self.get_rlimit(resource),
            _ => return Err(Errno::EINVAL),
        };
        let mut max_fd: Option<u64> = None;
        if let Some(new) = new_limit {
            if new.rlim_cur > new.rlim_max {
                return Err(Errno::EINVAL);
            }
            if resource == RlimitResource::NOFILE && new.rlim_max > RLIMIT_NOFILE_MAX {
                return Err(Errno::EPERM);
            }
            if new.rlim_max > old_rlimit.rlim_max {
                return Err(Errno::EPERM);
            }
            max_fd = Some(new.rlim_cur.saturating_sub(1));
            self.set_rlimit(resource, new);
        }
        Ok(LimitChange { old: old_rlimit, max_fd })
    }
}

/// The result of reading, and perhaps setting, a limit that is `old` before.
pub open spec fn prlimit_result(
    old: Rlimit,
    resource: RlimitResource,
    new_limit: Option<Rlimit>,
) -> Result<LimitChange, Errno> {
    if resource != RlimitResource::NOFILE && resource != RlimitResource::STACK {
        Err(Errno::EINVAL)
    } else {
        match new_limit {
            None => Ok(LimitChange { old, max_fd: None }),
            Some(new) => if new.rlim_cur > new.rlim_max {
                Err(Errno::EINVAL)
            } else if resource == RlimitResource::NOFILE && new.rlim_max > RLIMIT_NOFILE_MAX {
                Err(Errno::EPERM)
            } else if new.rlim_max > old.rlim_max {
                Err(Errno::EPERM)
            } else {
                Ok(
                    LimitChange {
                        old,
                        max_fd: Some(
                            if new.rlim_cur == 0 {
                                0
                            } else {
                                (new.rlim_cur - 1) as u64
                            },
                        ),
                    },
                )
            },
        }
    }
}

/// No call raises the highest limit of a resource, nor sets a limit above it.
pub proof fn law_limits_only_fall(old: Rlimit, resource: RlimitResource, new: Rlimit)
    requires
        prlimit_result(old, resource, Some(new)) is Ok,
    ensures
        new.rlim_cur <= new.rlim_max <= old.rlim_max,
        resource == RlimitResource::NOFILE ==> new.rlim_max <= RLIMIT_NOFILE_MAX,
{
}

/// The limits after the limit of one resource was set.
pub open spec fn limits_after(
    before: ResourceLimits,
    resource: RlimitResource,
    new_limit: Option<Rlimit>,
    after: ResourceLimits,
) -> bool {
    forall|other: RlimitResource| #[trigger]
        after.limit(other) == (if other == resource {
            match new_limit {
                Some(new) => new,
                None => before.limit(other),
            }
        } else {
            before.limit(other)
        })
}

/// A request to set a limit can be dealt with: the limit on the stack cannot be lowered.
pub open spec fn is_supported(old: Rlimit, resource: RlimitResource, new_limit: Option<Rlimit>) -> bool {
    resource == RlimitResource::STACK && (new_limit matches Some(new) && new.rlim_cur <= new.rlim_max)
        ==> new_limit->Some_0.rlim_max > old.rlim_max
}

/// Reads the limit of a resource, and sets it where a new one is given, for the caller's own process:
/// `pid` can name no other. `new_limit` is `Some(None)` where it could not be read from the caller. The
/// limit before is then written for the caller, who may want it.
pub fn sys_prlimit(
    limits: &mut ResourceLimits,
    pid: i32,
    resource: RlimitResource,
    new_limit: Option<Option<Rlimit>>,
) -> (r: Result<LimitChange, Errno>)
    requires
        old(limits).well_formed(),
        pid == 0,
        new_limit matches Some(new) ==> is_supported(old(limits).limit(resource), resource, new),
    ensures
        final(limits).well_formed(),
        r == (match new_limit {
            Some(None) => Err(Errno::EINVAL),
            Some(new) => prlimit_result(old(limits).limit(resource), resource, new),
            None => prlimit_result(old(limits).limit(resource), resource, None),
        }),
        limits_after(
            *old(limits),
            resource,
            match new_limit {
                Some(new) if r is Ok => new,
                _ => None,
            },
            *final(limits),
        ),
{
    match new_limit {
        Some(None) => Err(Errno::EINVAL),
        Some(Some(new)) => limits.do_prlimit(resource, Some(new)),
        None => limits.do_prlimit(resource, None),
    }
}

/// The limit of a resource, which is then written for the caller.
pub fn sys_getrlimit(limits: &ResourceLimits, resource: RlimitResource) -> (r: Result<Rlimit, Errno>)
    requires
        limits.well_formed(),
    ensures
        r == (if resource == RlimitResource::NOFILE || resource == RlimitResource::STACK {
            Ok(limits.limit(resource))
        } else {
            Err(Errno::EINVAL)
        }),
{
    match resource {
        RlimitResource::NOFILE | RlimitResource::STACK => Ok(limits.get_rlimit(resource)),
        _ => Err(Errno::EINVAL),
    }
}

/// The outcome of `setrlimit`, whose new limit is `None` where it could not be read.
pub fn sys_setrlimit(
    limits: &mut ResourceLimits,
    resource: RlimitResource,
    new_limit: Option<Rlimit>,
) -> (r: Result<LimitChange, Errno>)
    requires
        old(limits).well_formed(),
        is_supported(old(limits).limit(resource), resource, new_limit),
    ensures
        final(limits).well_formed(),
        r == (match new_limit {
            None => Err(Errno::EFAULT),
            Some(new) => prlimit_result(old(limits).limit(resource), resource, Some(new)),
        }),
        limits_after(
            *old(limits),
            resource,
            if r is Ok {
                new_limit
            } else {
                None
            },
            *final(limits),
        ),
{
    match new_limit {
        None => Err(Errno::EFAULT),
        Some(new) => limits.do_prlimit(resource, Some(new)),
    }
}

} // verus!
