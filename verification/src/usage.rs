//! Usage figures of the container runtime, per category and in total.

use vstd::prelude::*;

verus! {

/// How many items of a category are not in use: the total less the active
/// ones, and zero where more are reported active than exist.
pub open spec fn spec_unused_count(total: int, active: int) -> int {
    if total >= active {
        total - active
    } else {
        0
    }
}

/// Number of items of a category that are not in use.
pub fn unused_count(total: usize, active: usize) -> (unused: usize)
    ensures
        unused == spec_unused_count(total as int, active as int),
{
    total.saturating_sub(active)
}

/// The categories that the runtime reports usage for.
#[derive(Clone, Copy, Debug, PartialEq, Eq, Structural)]
pub enum UsageKind {
    Images,
    Containers,
    Volumes,
    BuildCache,
}

/// The figures of one category.
#[derive(Clone, Copy, Debug, PartialEq, Eq, Structural)]
pub struct CategoryUsage {
    pub total_size: u64,
    pub reclaimable_size: u64,
    pub total_count: usize,
    pub active_count: usize,
}

impl CategoryUsage {
    /// A category's figures agree with each other where no more is
    /// reclaimable than is there, and no more active than exist.
    pub open spec fn consistent(self) -> bool {
        self.reclaimable_size <= self.total_size && self.active_count <= self.total_count
    }

    /// Whether the figures agree with each other.
    pub fn is_consistent(&self) -> (b: bool)
        ensures
            b == self.consistent(),
    {
        self.reclaimable_size <= self.total_size && self.active_count <= self.total_count
    }

    /// Number of items of the category that are not in use.
    pub fn unused_count(&self) -> (unused: usize)
        ensures
            unused == spec_unused_count(self.total_count as int, self.active_count as int),
    {
        unused_count(self.total_count, self.active_count)
    }
}

/// One snapshot of the runtime's disk usage: four categories, side by side.
/// A category that was never reported stays all zero.
#[derive(Debug)]
pub struct DiskUsage {
    pub images_size: u64,
    pub images_reclaimable: u64,
    pub images_count: usize,
    pub images_active: usize,
    pub containers_size: u64,
    pub containers_reclaimable: u64,
    pub containers_count: usize,
    pub containers_active: usize,
    pub volumes_size: u64,
    pub volumes_reclaimable: u64,
    pub volumes_count: usize,
    pub volumes_active: usize,
    pub build_cache_size: u64,
    pub build_cache_reclaimable: u64,
    pub build_cache_count: usize,
    pub build_cache_active: usize,
}

impl Default for DiskUsage {
    fn default() -> (usage: Self)
        ensures
            usage == DiskUsage::empty(),
    {
        DiskUsage {
            images_size: 0,
            images_reclaimable: 0,
            images_count: 0,
            images_active: 0,
            containers_size: 0,
            containers_reclaimable: 0,
            containers_count: 0,
            containers_active: 0,
            volumes_size: 0,
            volumes_reclaimable: 0,
            volumes_count: 0,
            volumes_active: 0,
            build_cache_size: 0,
            build_cache_reclaimable: 0,
            build_cache_count: 0,
            build_cache_active: 0,
        }
    }
}

impl DiskUsage {
    /// The snapshot in which nothing was reported.
    pub open spec fn empty() -> DiskUsage {
        DiskUsage {
            images_size: 0,
            images_reclaimable: 0,
            images_count: 0,
            images_active: 0,
            containers_size: 0,
            containers_reclaimable: 0,
            containers_count: 0,
            containers_active: 0,
            volumes_size: 0,
            volumes_reclaimable: 0,
            volumes_count: 0,
            volumes_active: 0,
            build_cache_size: 0,
            build_cache_reclaimable: 0,
            build_cache_count: 0,
            build_cache_active: 0,
        }
    }

    /// The figures of one category.
    pub open spec fn spec_category(self, kind: UsageKind) -> CategoryUsage {
        match kind {
            UsageKind::Images => CategoryUsage {
                total_size: self.images_size,
                reclaimable_size: self.images_reclaimable,
                total_count: self.images_count,
                active_count: self.images_active,
            },
            UsageKind::Containers => CategoryUsage {
                total_size: self.containers_size,
                reclaimable_size: self.containers_reclaimable,
                total_count: self.containers_count,
                active_count: self.containers_active,
            },
            UsageKind::Volumes => CategoryUsage {
                total_size: self.volumes_size,
                reclaimable_size: self.volumes_reclaimable,
                total_count: self.volumes_count,
                active_count: self.volumes_active,
            },
            UsageKind::BuildCache => CategoryUsage {
                total_size: self.build_cache_size,
                reclaimable_size: self.build_cache_reclaimable,
                total_count: self.build_cache_count,
                active_count: self.build_cache_active,
            },
        }
    }

    /// The snapshot with one category's figures replaced.
    pub open spec fn with_category(self, kind: UsageKind, figures: CategoryUsage) -> DiskUsage {
        match kind {
            UsageKind::Images => DiskUsage {
                images_size: figures.total_size,
                images_reclaimable: figures.reclaimable_size,
                images_count: figures.total_count,
                images_active: figures.active_count,
                ..self
            },
            UsageKind::Containers => DiskUsage {
                containers_size: figures.total_size,
                containers_reclaimable: figures.reclaimable_size,
                containers_count: figures.total_count,
                containers_active: figures.active_count,
                ..self
            },
            UsageKind::Volumes => DiskUsage {
                volumes_size: figures.total_size,
                volumes_reclaimable: figures.reclaimable_size,
                volumes_count: figures.total_count,
                volumes_active: figures.active_count,
                ..self
            },
            UsageKind::BuildCache => DiskUsage {
                build_cache_size: figures.total_size,
                build_cache_reclaimable: figures.reclaimable_size,
                build_cache_count: figures.total_count,
                build_cache_active: figures.active_count,
                ..self
            },
        }
    }

    /// A snapshot is consistent where each of its categories is.
    pub open spec fn consistent(self) -> bool {
        &&& self.spec_category(UsageKind::Images).consistent()
        &&& self.spec_category(UsageKind::Containers).consistent()
        &&& self.spec_category(UsageKind::Volumes).consistent()
        &&& self.spec_category(UsageKind::BuildCache).consistent()
    }

    /// Sum of the four categories' sizes.
    pub open spec fn spec_total_size(self) -> int {
        self.images_size + self.containers_size + self.volumes_size + self.build_cache_size
    }

    /// Sum of the four categories' reclaimable sizes.
    pub open spec fn spec_total_reclaimable(self) -> int {
        self.images_reclaimable + self.containers_reclaimable + self.volumes_reclaimable
            + self.build_cache_reclaimable
    }

    /// The figures of one category.
    pub fn category(&self, kind: UsageKind) -> (figures: CategoryUsage)
        ensures
            figures == self.spec_category(kind),
    {
        match kind {
            UsageKind::Images => CategoryUsage {
                total_size: self.images_size,
                reclaimable_size: self.images_reclaimable,
                total_count: self.images_count,
                active_count: self.images_active,
            },
            UsageKind::Containers => CategoryUsage {
                total_size: self.containers_size,
                reclaimable_size: self.containers_reclaimable,
                total_count: self.containers_count,
                active_count: self.containers_active,
            },
            UsageKind::Volumes => CategoryUsage {
                total_size: self.volumes_size,
                reclaimable_size: self.volumes_reclaimable,
                total_count: self.volumes_count,
                active_count: self.volumes_active,
            },
            UsageKind::BuildCache => CategoryUsage {
                total_size: self.build_cache_size,
                reclaimable_size: self.build_cache_reclaimable,
                total_count: self.build_cache_count,
                active_count: self.build_cache_active,
            },
        }
    }

    /// Replaces the figures of one category and leaves the others as they are.
    pub fn set_category(&mut self, kind: UsageKind, figures: CategoryUsage)
        ensures
            *final(self) == old(self).with_category(kind, figures),
    {
        match kind {
            UsageKind::Images => {
                self.images_size = figures.total_size;
                self.images_reclaimable = figures.reclaimable_size;
                self.images_count = figures.total_count;
                self.images_active = figures.active_count;
            },
            UsageKind::Containers => {
                self.containers_size = figures.total_size;
                self.containers_reclaimable = figures.reclaimable_size;
                self.containers_count = figures.total_count;
                self.containers_active = figures.active_count;
            },
            UsageKind::Volumes => {
                self.volumes_size = figures.total_size;
                self.volumes_reclaimable = figures.reclaimable_size;
                self.volumes_count = figures.total_count;
                self.volumes_active = figures.active_count;
            },
            UsageKind::BuildCache => {
                self.build_cache_size = figures.total_size;
                self.build_cache_reclaimable = figures.reclaimable_size;
                self.build_cache_count = figures.total_count;
                self.build_cache_active = figures.active_count;
            },
        }
    }

    /// Whether every category's figures agree with each other.
    pub fn is_consistent(&self) -> (b: bool)
        ensures
            b == self.consistent(),
    {
        self.category(UsageKind::Images).is_consistent() && self.category(
            UsageKind::Containers,
        ).is_consistent() && self.category(UsageKind::Volumes).is_consistent() && self.category(
            UsageKind::BuildCache,
        ).is_consistent()
    }

    /// Whether the total size can be held in a `u64`.
    pub fn total_size_fits(&self) -> (fits: bool)
        ensures
            fits == (self.spec_total_size() <= u64::MAX),
    {
        let size = self.images_size as u128 + self.containers_size as u128
            + self.volumes_size as u128 + self.build_cache_size as u128;
        size <= u64::MAX as u128
    }

    /// Whether the total reclaimable size can be held in a `u64`.
    pub fn total_reclaimable_fits(&self) -> (fits: bool)
        ensures
            fits == (self.spec_total_reclaimable() <= u64::MAX),
    {
        let reclaimable = self.images_reclaimable as u128 + self.containers_reclaimable as u128
            + self.volumes_reclaimable as u128 + self.build_cache_reclaimable as u128;
        reclaimable <= u64::MAX as u128
    }

    /// Bytes that all categories take together.
    pub fn total_size(&self) -> (total: u64)
        requires
            self.spec_total_size() <= u64::MAX,
        ensures
            total == self.spec_total_size(),
    {
        self.images_size + self.containers_size + self.volumes_size + self.build_cache_size
    }

    /// Bytes that removal would free in all categories together.
    pub fn total_reclaimable(&self) -> (total: u64)
        requires
            self.spec_total_reclaimable() <= u64::MAX,
        ensures
            total == self.spec_total_reclaimable(),
    {
        self.images_reclaimable + self.containers_reclaimable + self.volumes_reclaimable
            + self.build_cache_reclaimable
    }
}

/// Of a consistent snapshot no more is reclaimable than it holds in all.
pub proof fn lemma_reclaimable_within_total(usage: DiskUsage)
    requires
        usage.consistent(),
    ensures
        usage.spec_total_reclaimable() <= usage.spec_total_size(),
{
}

/// Bytes freed between two measurements: what the total fell by, and zero
/// where it grew.
pub open spec fn spec_space_freed(before: int, after: int) -> int {
    if before >= after {
        before - after
    } else {
        0
    }
}

/// Bytes freed between a total measured before and one measured after.
pub fn space_freed(before: u64, after: u64) -> (freed: u64)
    ensures
        freed == spec_space_freed(before as int, after as int),
{
    before.saturating_sub(after)
}

} // verus!
