//! Memory watermark monitoring and alerting.
//!
//! The hash table load, the extent region usage and the slab chunk usage are
//! compared with their thresholds; [`judge`] turns the three comparisons into
//! the verdict that monitors and clients are told.

use vstd::prelude::*;

verus! {

/// Which thresholds are exceeded, and their names for the notification.
#[derive(Debug)]
pub struct WatermarkVerdict {
    pub any_exceeded: bool,
    pub exceeded_regions: Vec<String>,
}

/// A list of one name, or none.
pub open spec fn named_if(exceeded: bool, name: Seq<char>) -> Seq<Seq<char>> {
    if exceeded {
        seq![name]
    } else {
        Seq::empty()
    }
}

/// The names of the exceeded regions, in the order table, extents, slab.
pub open spec fn exceeded_names(table: bool, extent: bool, slab: bool) -> Seq<Seq<char>> {
    named_if(table, "hash_table"@) + named_if(extent, "extent_region"@) + named_if(
        slab,
        "slab_region"@,
    )
}

/// The verdict on three comparisons: whether the hash table, the extent region
/// and the slab region exceed their thresholds.
pub fn judge(table: bool, extent: bool, slab: bool) -> (v: WatermarkVerdict)
    ensures
        v.any_exceeded == (table || extent || slab),
        v.exceeded_regions@.len() == exceeded_names(table, extent, slab).len(),
        forall|i: int|
            0 <= i < v.exceeded_regions@.len() ==> (#[trigger] v.exceeded_regions@[i])@
                == exceeded_names(table, extent, slab)[i],
{
    let mut exceeded_regions: Vec<String> = Vec::new();
    if table {
        exceeded_regions.push("hash_table".to_owned());
    }
    if extent {
        exceeded_regions.push("extent_region".to_owned());
    }
    if slab {
        exceeded_regions.push("slab_region".to_owned());
    }
    let any_exceeded: bool = exceeded_regions.len() > 0;
    WatermarkVerdict { any_exceeded, exceeded_regions }
}

/// A region is named when it exceeds its threshold, and only then: the table first,
/// the slab last.
pub proof fn law_names_follow_the_thresholds(table: bool, extent: bool, slab: bool)
    ensures
        ({
            let names = exceeded_names(table, extent, slab);
            let before: int = if table {
                1
            } else {
                0
            };
            &&& names.len() == before + (if extent {
                1int
            } else {
                0
            }) + (if slab {
                1int
            } else {
                0
            })
            &&& table ==> names[0] == "hash_table"@
            &&& extent ==> names[before] == "extent_region"@
            &&& slab ==> names.last() == "slab_region"@
        }),
{
}

} // verus!
