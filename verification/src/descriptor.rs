//! Repository descriptors, run options and the place of a clone on disk.

use vstd::prelude::*;
use vstd::string::*;

verus! {

/// One remote repository, as the hosting service reports it.
#[derive(Debug, PartialEq, Eq)]
pub struct RepositoryDescriptor {
    /// Unique within one listing; also the last component of the local path.
    pub name: String,
    /// Where the repository is cloned and fetched from.
    pub clone_url: String,
    /// Whether the repository is a fork of another one.
    pub fork: bool,
}

/// The mathematical value of a [`RepositoryDescriptor`].
pub struct DescriptorView {
    pub name: Seq<char>,
    pub clone_url: Seq<char>,
    pub fork: bool,
}

impl View for RepositoryDescriptor {
    type V = DescriptorView;

    open spec fn view(&self) -> DescriptorView {
        DescriptorView { name: self.name@, clone_url: self.clone_url@, fork: self.fork }
    }
}

impl Clone for RepositoryDescriptor {
    fn clone(&self) -> (copy: Self)
        ensures
            copy@ == self@,
    {
        RepositoryDescriptor {
            name: self.name.clone(),
            clone_url: self.clone_url.clone(),
            fork: self.fork,
        }
    }
}

impl RepositoryDescriptor {
    pub fn new(name: String, clone_url: String, fork: bool) -> (descriptor: Self)
        ensures
            descriptor@ == (DescriptorView { name: name@, clone_url: clone_url@, fork }),
    {
        RepositoryDescriptor { name, clone_url, fork }
    }
}

/// The values of a sequence of descriptors, in the same order.
pub open spec fn views(descriptors: Seq<RepositoryDescriptor>) -> Seq<DescriptorView> {
    descriptors.map_values(|d: RepositoryDescriptor| d@)
}

/// No two descriptors of the listing share a name.
pub open spec fn distinct_names(listing: Seq<DescriptorView>) -> bool {
    forall|i: int, j: int|
        0 <= i < j < listing.len() ==> (#[trigger] listing[i]).name != (#[trigger] listing[j]).name
}

/// Tells whether no two descriptors of a listing share a name.
pub fn names_are_distinct(listing: &Vec<RepositoryDescriptor>) -> (distinct: bool)
    ensures
        distinct == distinct_names(views(listing@)),
{
    let ghost names = views(listing@);
    let mut later: usize = 0;
    while later < listing.len()
        invariant
            later <= listing.len(),
            names == views(listing@),
            forall|i: int, j: int|
                0 <= i < j < later ==> (#[trigger] names[i]).name != (#[trigger] names[j]).name,
        decreases listing.len() - later,
    {
        let mut earlier: usize = 0;
        while earlier < later
            invariant
                earlier <= later < listing.len(),
                names == views(listing@),
                forall|i: int| 0 <= i < earlier ==> (#[trigger] names[i]).name != names[later as int].name,
            decreases later - earlier,
        {
            if listing[earlier].name == listing[later].name {
                assert(names[earlier as int].name == names[later as int].name);
                return false;
            }
            earlier += 1;
        }
        later += 1;
    }
    true
}

/// What the user asked for on the command line.
#[derive(Debug, PartialEq, Eq)]
pub struct Opts {
    /// Clone without a working tree.
    pub bare: bool,
    /// The user or organisation whose repositories are synchronized.
    pub entity: String,
    /// Leave forks out.
    pub no_forks: bool,
}

impl Opts {
    pub fn new(entity: String, bare: bool, no_forks: bool) -> (opts: Self)
        ensures
            opts.entity@ == entity@,
            opts.bare == bare,
            opts.no_forks == no_forks,
    {
        Opts { bare, entity, no_forks }
    }
}

/// The local path of a clone: the entity, a slash, the repository's name.
pub open spec fn path_of(entity: Seq<char>, name: Seq<char>) -> Seq<char> {
    entity + seq!['/'] + name
}

/// Computes the directory that holds the clone of `name` for `entity`.
pub fn local_path(entity: &str, name: &str) -> (path: String)
    ensures
        path@ == path_of(entity@, name@),
{
    let mut path = String::from_str(entity);
    proof {
        reveal_strlit("/");
        assert("/"@ =~= seq!['/']);
    }
    path.append("/");
    path.append(name);
    path
}

/// Within one entity, different names give different paths: no two
/// repositories of a listing with distinct names share a directory.
pub proof fn lemma_paths_are_disjoint(entity: Seq<char>, first: Seq<char>, second: Seq<char>)
    requires
        first != second,
    ensures
        path_of(entity, first) != path_of(entity, second),
{
    let prefix = entity + seq!['/'];
    let p1 = path_of(entity, first);
    let p2 = path_of(entity, second);
    if p1 == p2 {
        assert(p1.subrange(prefix.len() as int, p1.len() as int) =~= first);
        assert(p2.subrange(prefix.len() as int, p2.len() as int) =~= second);
        assert(false);
    }
}

} // verus!
