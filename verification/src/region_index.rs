//! The regions of a memory map in the order in which the map lists them,
//! and the queries over them.

use vstd::prelude::*;

use crate::error::{FindError, ParseError, QueryError, StateError};
use crate::maps::lines::{maps_regions, parse_text, MapsRead};
use crate::memory_region::{region_views, MemoryRegion, RegionPermissions, RegionView};
use crate::text::{chars_of, range_equals};

verus! {

/// The name under which a region without a path is found.
pub open spec fn anonymous_name() -> Seq<char> {
    "[anonymous_region]"@
}

/// The place behind the last `/` of `path`; 0 where it holds none.
pub open spec fn base_start(path: Seq<char>) -> int
    decreases path.len(),
{
    if path.len() == 0 {
        0
    } else if path.last() == '/' {
        path.len() as int
    } else {
        base_start(path.drop_last())
    }
}

/// What follows the last `/` of `path`; the whole of it where it holds
/// none.
pub open spec fn base_name(path: Seq<char>) -> Seq<char> {
    path.skip(base_start(path))
}

/// The name of a region: the base name of its path, or the name of the
/// anonymous regions.
pub open spec fn region_name(region: RegionView) -> Seq<char> {
    match region.path {
        Some(path) => base_name(path),
        None => anonymous_name(),
    }
}

/// Whether `i` is the first region of `regions` named `name`.
pub open spec fn is_first_named(regions: Seq<RegionView>, name: Seq<char>, i: int) -> bool {
    &&& 0 <= i < regions.len()
    &&& region_name(regions[i]) == name
    &&& forall|j: int| 0 <= j < i ==> region_name(#[trigger] regions[j]) != name
}

/// Whether `i` is the first region of `regions` that holds `address`.
pub open spec fn is_first_containing(regions: Seq<RegionView>, address: usize, i: int) -> bool {
    &&& 0 <= i < regions.len()
    &&& regions[i].contains(address)
    &&& forall|j: int| 0 <= j < i ==> !(#[trigger] regions[j]).contains(address)
}

/// What the search for the name `name` gives: the index of the region
/// found, or why none is.
///
/// Only the first region of that name is looked at. With a filter it must
/// have exactly the permissions of the filter; where it has others the
/// search fails, whatever regions of the same name follow.
pub open spec fn name_query(
    regions: Seq<RegionView>,
    name: Seq<char>,
    permissions_filter: Option<RegionPermissions>,
) -> Result<int, QueryError> {
    if exists|i: int| is_first_named(regions, name, i) {
        let first = choose|i: int| is_first_named(regions, name, i);
        let actual = regions[first].permissions;
        match permissions_filter {
            Some(expected) => if expected == actual {
                Ok(first)
            } else {
                Err(QueryError::PermissionMismatch { expected, actual })
            },
            None => Ok(first),
        }
    } else {
        Err(QueryError::NotFound)
    }
}

/// What the search for the region of `address` gives: the index of the
/// first region that holds it, or `NotFound`.
pub open spec fn address_query(regions: Seq<RegionView>, address: usize) -> Result<
    int,
    QueryError,
> {
    if exists|i: int| is_first_containing(regions, address, i) {
        Ok(choose|i: int| is_first_containing(regions, address, i))
    } else {
        Err(QueryError::NotFound)
    }
}

/// Only one region is the first of its name.
pub proof fn lemma_first_named_is_unique(
    regions: Seq<RegionView>,
    name: Seq<char>,
    i: int,
    j: int,
)
    requires
        is_first_named(regions, name, i),
        is_first_named(regions, name, j),
    ensures
        i == j,
{
    if i < j {
        assert(region_name(regions[i]) != name);
    }
    if j < i {
        assert(region_name(regions[j]) != name);
    }
}

/// Only one region is the first to hold an address.
pub proof fn lemma_first_containing_is_unique(
    regions: Seq<RegionView>,
    address: usize,
    i: int,
    j: int,
)
    requires
        is_first_containing(regions, address, i),
        is_first_containing(regions, address, j),
    ensures
        i == j,
{
    if i < j {
        assert(!regions[i].contains(address));
    }
    if j < i {
        assert(!regions[j].contains(address));
    }
}

/// The first region of a name decides the search for that name, alone:
/// it is found if there is no filter or it has the permissions of the
/// filter, and else the search fails with a mismatch, also where a later
/// region of the same name has the permissions asked for.
pub proof fn lemma_first_of_name_decides(
    regions: Seq<RegionView>,
    name: Seq<char>,
    permissions_filter: Option<RegionPermissions>,
    first: int,
)
    requires
        is_first_named(regions, name, first),
    ensures
        name_query(regions, name, permissions_filter) == (match permissions_filter {
            Some(expected) => if expected == regions[first].permissions {
                Ok(first)
            } else {
                Err(
                    QueryError::PermissionMismatch {
                        expected,
                        actual: regions[first].permissions,
                    },
                )
            },
            None => Ok(first),
        }),
{
    let chosen = choose|i: int| is_first_named(regions, name, i);
    lemma_first_named_is_unique(regions, name, first, chosen);
}

/// Where no region goes by a name, the search for it finds nothing.
pub proof fn lemma_no_region_of_name(
    regions: Seq<RegionView>,
    name: Seq<char>,
    permissions_filter: Option<RegionPermissions>,
)
    requires
        forall|i: int| 0 <= i < regions.len() ==> region_name(#[trigger] regions[i]) != name,
    ensures
        name_query(regions, name, permissions_filter) == Err::<int, QueryError>(
            QueryError::NotFound,
        ),
{
}

/// The first region that holds an address is the one found for it.
pub proof fn lemma_first_containing_is_found(regions: Seq<RegionView>, address: usize, first: int)
    requires
        is_first_containing(regions, address, first),
    ensures
        address_query(regions, address) == Ok::<int, QueryError>(first),
{
    let chosen = choose|i: int| is_first_containing(regions, address, i);
    lemma_first_containing_is_unique(regions, address, first, chosen);
}

/// Where no region holds an address, the search for it finds nothing.
pub proof fn lemma_no_region_of_address(regions: Seq<RegionView>, address: usize)
    requires
        forall|i: int| 0 <= i < regions.len() ==> !(#[trigger] regions[i]).contains(address),
    ensures
        address_query(regions, address) == Err::<int, QueryError>(QueryError::NotFound),
{
}

/// Both bounds of a region belong to it, and the address behind its end
/// does not: alone in a map, the region is found for its last address and
/// not for the next one.
pub proof fn lemma_end_is_inclusive(region: RegionView)
    requires
        region.well_formed(),
    ensures
        address_query(seq![region], region.start) == Ok::<int, QueryError>(0),
        address_query(seq![region], region.end) == Ok::<int, QueryError>(0),
        region.end < usize::MAX ==> address_query(seq![region], (region.end + 1) as usize) == Err::<
            int,
            QueryError,
        >(QueryError::NotFound),
{
    let regions = seq![region];
    assert(is_first_containing(regions, region.start, 0));
    lemma_first_containing_is_found(regions, region.start, 0);
    assert(is_first_containing(regions, region.end, 0));
    lemma_first_containing_is_found(regions, region.end, 0);
    if region.end < usize::MAX {
        lemma_no_region_of_address(regions, (region.end + 1) as usize);
    }
}

/// The place behind the last `/` of `path`.
fn base_start_of(path: &Vec<char>) -> (start: usize)
    ensures
        start == base_start(path@),
        start <= path@.len(),
{
    let mut i: usize = path.len();
    proof {
        assert(path@.take(i as int) == path@);
    }
    while i > 0 && path[i - 1] != '/'
        invariant
            i <= path@.len(),
            base_start(path@) == base_start(path@.take(i as int)),
        decreases i,
    {
        proof {
            assert(path@.take(i as int).drop_last() == path@.take(i - 1));
        }
        i = i - 1;
    }
    i
}

/// Whether `region` goes by the name that `wanted` spells; `anonymous`
/// spells the name of the anonymous regions.
fn goes_by(region: &MemoryRegion, wanted: &Vec<char>, anonymous: &Vec<char>) -> (named: bool)
    requires
        anonymous@ == anonymous_name(),
    ensures
        named == (region_name(region@) == wanted@),
{
    match &region.path {
        Some(path) => {
            let chars = chars_of(path.as_str());
            let start = base_start_of(&chars);
            range_equals(&chars, start, chars.len(), wanted)
        },
        None => {
            assert(anonymous@.subrange(0, anonymous@.len() as int) == anonymous@);
            range_equals(anonymous, 0, anonymous.len(), wanted)
        },
    }
}

/// Whether `region` goes by `name`.
pub fn is_named(region: &MemoryRegion, name: &str) -> (named: bool)
    ensures
        named == (region_name(region@) == name@),
{
    let wanted = chars_of(name);
    let anonymous = chars_of("[anonymous_region]");
    goes_by(region, &wanted, &anonymous)
}

/// The first region whose name is `name`. With a filter, that region must
/// have exactly the permissions of the filter: where it has others the
/// search fails there, whatever regions of the same name follow.
pub fn find_first_by_name<'a>(
    regions: &'a Vec<MemoryRegion>,
    name: &str,
    permissions_filter: Option<RegionPermissions>,
) -> (found: Result<&'a MemoryRegion, QueryError>)
    ensures
        match name_query(region_views(regions@), name@, permissions_filter) {
            Ok(i) => 0 <= i < regions@.len() && found == Ok::<&MemoryRegion, QueryError>(
                &regions@[i],
            ),
            Err(e) => found == Err::<&MemoryRegion, QueryError>(e),
        },
{
    let ghost views = region_views(regions@);
    let wanted = chars_of(name);
    let anonymous = chars_of("[anonymous_region]");
    let mut i: usize = 0;
    while i < regions.len()
        invariant
            i <= regions@.len(),
            views == region_views(regions@),
            wanted@ == name@,
            anonymous@ == anonymous_name(),
            forall|j: int| 0 <= j < i ==> region_name(#[trigger] views[j]) != name@,
        decreases regions@.len() - i,
    {
        let region = &regions[i];
        if goes_by(region, &wanted, &anonymous) {
            proof {
                assert(is_first_named(views, name@, i as int));
                lemma_first_of_name_decides(views, name@, permissions_filter, i as int);
            }
            return match permissions_filter {
                Some(expected) => {
                    if expected == region.permissions {
                        Ok(region)
                    } else {
                        Err(
                            QueryError::PermissionMismatch { expected, actual: region.permissions },
                        )
                    }
                },
                None => Ok(region),
            };
        }
        i = i + 1;
    }
    proof {
        lemma_no_region_of_name(views, name@, permissions_filter);
    }
    Err(QueryError::NotFound)
}

/// The first region that holds `address`. Both bounds of a region belong
/// to it.
pub fn find_containing<'a>(regions: &'a Vec<MemoryRegion>, address: usize) -> (found: Result<
    &'a MemoryRegion,
    QueryError,
>)
    ensures
        match address_query(region_views(regions@), address) {
            Ok(i) => 0 <= i < regions@.len() && found == Ok::<&MemoryRegion, QueryError>(
                &regions@[i],
            ),
            Err(e) => found == Err::<&MemoryRegion, QueryError>(e),
        },
{
    let ghost views = region_views(regions@);
    let mut i: usize = 0;
    while i < regions.len()
        invariant
            i <= regions@.len(),
            views == region_views(regions@),
            forall|j: int| 0 <= j < i ==> !(#[trigger] views[j]).contains(address),
        decreases regions@.len() - i,
    {
        let region = &regions[i];
        if region.contains(address) {
            proof {
                assert(is_first_containing(views, address, i as int));
                lemma_first_containing_is_found(views, address, i as int);
            }
            return Ok(region);
        }
        i = i + 1;
    }
    proof {
        lemma_no_region_of_address(views, address);
    }
    Err(QueryError::NotFound)
}

/// The regions of a process: unmapped until a memory map is taken over,
/// and from then on the regions of the map that was taken over last.
#[derive(Debug, PartialEq, Eq)]
pub enum RegionIndex {
    /// No memory map was taken over yet.
    Unmapped,
    /// The regions of the map that was taken over last, in its order.
    Mapped(Vec<MemoryRegion>),
}

impl View for RegionIndex {
    type V = Option<Seq<RegionView>>;

    open spec fn view(&self) -> Option<Seq<RegionView>> {
        match self {
            RegionIndex::Unmapped => None,
            RegionIndex::Mapped(regions) => Some(region_views(regions@)),
        }
    }
}

/// What the search for the name `name` gives in an index: `NotMapped`
/// where no map was taken over, else what it gives in the regions.
pub open spec fn index_name_query(
    index: Option<Seq<RegionView>>,
    name: Seq<char>,
    permissions_filter: Option<RegionPermissions>,
) -> Result<int, FindError> {
    match index {
        None => Err(FindError::State(StateError::NotMapped)),
        Some(regions) => match name_query(regions, name, permissions_filter) {
            Ok(i) => Ok(i),
            Err(e) => Err(FindError::Query(e)),
        },
    }
}

/// What the search for the region of `address` gives in an index:
/// `NotMapped` where no map was taken over, else what it gives in the
/// regions.
pub open spec fn index_address_query(index: Option<Seq<RegionView>>, address: usize) -> Result<
    int,
    FindError,
> {
    match index {
        None => Err(FindError::State(StateError::NotMapped)),
        Some(regions) => match address_query(regions, address) {
            Ok(i) => Ok(i),
            Err(e) => Err(FindError::Query(e)),
        },
    }
}

impl RegionIndex {
    /// The index of the memory map that `maps` holds: one region for each
    /// line of its text, in the order of the lines. A map that could not
    /// be read, or one line that is no record, gives no index.
    pub fn from_maps(maps: &MapsRead) -> (parsed: Result<RegionIndex, ParseError>)
        ensures
            match maps_regions(*maps) {
                Ok(described) => parsed matches Ok(index) && index@ == Some(described),
                Err(e) => parsed matches Err(failure) && failure == e,
            },
    {
        match maps {
            MapsRead::Failed => Err(ParseError::IoFailure),
            MapsRead::Text(text) => match parse_text(text.as_str()) {
                Ok(regions) => Ok(RegionIndex::Mapped(regions)),
                Err(e) => Err(e),
            },
        }
    }

    /// The regions, if a map was taken over.
    pub fn regions(&self) -> (regions: Result<&Vec<MemoryRegion>, StateError>)
        ensures
            match self@ {
                Some(views) => regions matches Ok(regions) && region_views(regions@) == views,
                None => regions == Err::<&Vec<MemoryRegion>, StateError>(StateError::NotMapped),
            },
    {
        match self {
            RegionIndex::Mapped(regions) => Ok(regions),
            RegionIndex::Unmapped => Err(StateError::NotMapped),
        }
    }

    /// The first region whose name is `name`; with a filter, that region
    /// must have exactly the permissions of the filter.
    pub fn find_first_by_name(
        &self,
        name: &str,
        permissions_filter: Option<RegionPermissions>,
    ) -> (found: Result<&MemoryRegion, FindError>)
        ensures
            match index_name_query(self@, name@, permissions_filter) {
                Ok(i) => found matches Ok(region) && 0 <= i < self@->0.len() && region@
                    == self@->0[i],
                Err(e) => found == Err::<&MemoryRegion, FindError>(e),
            },
    {
        match self {
            RegionIndex::Unmapped => Err(FindError::State(StateError::NotMapped)),
            RegionIndex::Mapped(regions) => match find_first_by_name(
                regions,
                name,
                permissions_filter,
            ) {
                Ok(region) => Ok(region),
                Err(e) => Err(FindError::Query(e)),
            },
        }
    }

    /// The first region that holds `address`.
    pub fn find_containing(&self, address: usize) -> (found: Result<&MemoryRegion, FindError>)
        ensures
            match index_address_query(self@, address) {
                Ok(i) => found matches Ok(region) && 0 <= i < self@->0.len() && region@
                    == self@->0[i],
                Err(e) => found == Err::<&MemoryRegion, FindError>(e),
            },
    {
        match self {
            RegionIndex::Unmapped => Err(FindError::State(StateError::NotMapped)),
            RegionIndex::Mapped(regions) => match find_containing(regions, address) {
                Ok(region) => Ok(region),
                Err(e) => Err(FindError::Query(e)),
            },
        }
    }
}

} // verus!
