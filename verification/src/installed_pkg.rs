//! The record of the installation of a package.
//!
//! A record names the package and keeps, where they are known, the hash of
//! its root and its contents. The records tell which packages were installed,
//! so that a package is not installed twice and can be taken out again.

use vstd::prelude::*;
use crate::ids::InstalledPkgId;
use crate::text::{copy_text, text_of};

verus! {

/// Why an operation on the records failed.
#[derive(Debug, Clone, Copy, PartialEq, Eq, Structural)]
pub enum InstalledPkgError {
    /// No record has this identifier.
    NotFound(InstalledPkgId),
}

/// The record of one installation.
#[derive(Debug, PartialEq, Eq)]
pub struct InstalledPkg {
    id: InstalledPkgId,
    name: String,
    root_hash: Option<String>,
    pkg_contents: Option<String>,
}

/// The mathematical value of a record.
pub struct InstalledPkgView {
    pub id: InstalledPkgId,
    pub name: Seq<char>,
    pub root_hash: Option<Seq<char>>,
    pub pkg_contents: Option<Seq<char>>,
}

impl View for InstalledPkg {
    type V = InstalledPkgView;

    closed spec fn view(&self) -> InstalledPkgView {
        InstalledPkgView {
            id: self.id,
            name: self.name@,
            root_hash: text_of(self.root_hash),
            pkg_contents: text_of(self.pkg_contents),
        }
    }
}

/// The records of the installed packages, in the order of their installation.
#[derive(Debug)]
pub struct InstalledPkgs {
    records: Vec<InstalledPkg>,
}

impl View for InstalledPkgs {
    type V = Seq<InstalledPkgView>;

    closed spec fn view(&self) -> Seq<InstalledPkgView> {
        self.records@.map_values(|record: InstalledPkg| record@)
    }
}

/// Every record stands at the position that its identifier names.
pub open spec fn records_wf(records: Seq<InstalledPkgView>) -> bool {
    forall|i: int| 0 <= i < records.len() ==> (#[trigger] records[i]).id.0 == i
}

/// Whether the record at position `i` is of a package with this root hash.
pub open spec fn has_root_hash(records: Seq<InstalledPkgView>, root_hash: Seq<char>, i: int)
    -> bool {
    0 <= i < records.len() && records[i].root_hash == Some(root_hash)
}

impl InstalledPkgs {
    /// Every record stands at the position that its identifier names.
    pub open spec fn wf(&self) -> bool {
        records_wf(self@)
    }

    /// No record yet.
    pub fn new() -> (records: InstalledPkgs)
        ensures
            records@ == Seq::<InstalledPkgView>::empty(),
            records.wf(),
    {
        let records = InstalledPkgs { records: Vec::new() };
        records
    }

    /// The number of records.
    pub fn len(&self) -> (count: usize)
        ensures
            count == self@.len(),
    {
        self.records.len()
    }

    /// The position that an identifier names, if a record stands there.
    fn position(&self, id: InstalledPkgId) -> (position: Option<usize>)
        ensures
            match position {
                Some(i) => i == id.0 && id.0 < self@.len(),
                None => id.0 >= self@.len(),
            },
    {
        if id.0 < self.records.len() as u64 {
            Some(id.0 as usize)
        } else {
            None
        }
    }

    /// The record with this identifier, if there is one.
    pub fn get_by_id(&self, id: InstalledPkgId) -> (found: Option<&InstalledPkg>)
        ensures
            match found {
                Some(record) => id.0 < self@.len() && record@ == self@[id.0 as int],
                None => id.0 >= self@.len(),
            },
    {
        match self.position(id) {
            Some(i) => Some(&self.records[i]),
            None => None,
        }
    }

    /// The first record of a package with this root hash, if there is one:
    /// the package was installed before.
    pub fn find_by_root_hash(&self, root_hash: &String) -> (found: Option<InstalledPkgId>)
        requires
            self.wf(),
        ensures
            match found {
                Some(id) => has_root_hash(self@, root_hash@, id.0 as int) && forall|i: int|
                    0 <= i < id.0 ==> !has_root_hash(self@, root_hash@, i),
                None => forall|i: int| !has_root_hash(self@, root_hash@, i),
            },
    {
        let mut i: usize = 0;
        while i < self.records.len()
            invariant
                self.wf(),
                i <= self.records.len(),
                forall|k: int| 0 <= k < i ==> !has_root_hash(self@, root_hash@, k),
            decreases self.records.len() - i,
        {
            let record = &self.records[i];
            assert(record@ == self@[i as int]);
            let same = match &record.root_hash {
                Some(hash) => *hash == *root_hash,
                None => false,
            };
            if same {
                return Some(record.id);
            }
            i = i + 1;
        }
        None
    }

    /// Changes the name in a record.
    pub fn set_name(&mut self, id: InstalledPkgId, name: String) -> (set: Result<
        (),
        InstalledPkgError,
    >)
        requires
            old(self).wf(),
        ensures
            final(self).wf(),
            match set {
                Ok(()) => id.0 < old(self)@.len() && final(self)@ == old(self)@.update(
                    id.0 as int,
                    InstalledPkgView { name: name@, ..old(self)@[id.0 as int] },
                ),
                Err(error) => id.0 >= old(self)@.len() && error == InstalledPkgError::NotFound(id)
                    && final(self)@ == old(self)@,
            },
    {
        let position = match self.position(id) {
            Some(i) => i,
            None => {
                return Err(InstalledPkgError::NotFound(id));
            },
        };
        self.records[position].name = name;
        assert(self@ =~= old(self)@.update(
            id.0 as int,
            InstalledPkgView { name: name@, ..old(self)@[id.0 as int] },
        ));
        Ok(())
    }

    /// Changes the root hash in a record.
    pub fn set_root_hash(&mut self, id: InstalledPkgId, root_hash: Option<String>) -> (set: Result<
        (),
        InstalledPkgError,
    >)
        requires
            old(self).wf(),
        ensures
            final(self).wf(),
            match set {
                Ok(()) => id.0 < old(self)@.len() && final(self)@ == old(self)@.update(
                    id.0 as int,
                    InstalledPkgView { root_hash: text_of(root_hash), ..old(self)@[id.0 as int] },
                ),
                Err(error) => id.0 >= old(self)@.len() && error == InstalledPkgError::NotFound(id)
                    && final(self)@ == old(self)@,
            },
    {
        let position = match self.position(id) {
            Some(i) => i,
            None => {
                return Err(InstalledPkgError::NotFound(id));
            },
        };
        self.records[position].root_hash = root_hash;
        assert(self@ =~= old(self)@.update(
            id.0 as int,
            InstalledPkgView { root_hash: text_of(root_hash), ..old(self)@[id.0 as int] },
        ));
        Ok(())
    }

    /// Changes the contents in a record.
    pub fn set_pkg_contents(&mut self, id: InstalledPkgId, pkg_contents: Option<String>) -> (set:
        Result<(), InstalledPkgError>)
        requires
            old(self).wf(),
        ensures
            final(self).wf(),
            match set {
                Ok(()) => id.0 < old(self)@.len() && final(self)@ == old(self)@.update(
                    id.0 as int,
                    InstalledPkgView {
                        pkg_contents: text_of(pkg_contents),
                        ..old(self)@[id.0 as int]
                    },
                ),
                Err(error) => id.0 >= old(self)@.len() && error == InstalledPkgError::NotFound(id)
                    && final(self)@ == old(self)@,
            },
    {
        let position = match self.position(id) {
            Some(i) => i,
            None => {
                return Err(InstalledPkgError::NotFound(id));
            },
        };
        self.records[position].pkg_contents = pkg_contents;
        assert(self@ =~= old(self)@.update(
            id.0 as int,
            InstalledPkgView { pkg_contents: text_of(pkg_contents), ..old(self)@[id.0 as int] },
        ));
        Ok(())
    }
}

impl InstalledPkg {
    /// Records the installation of a package, and returns the record.
    pub fn new(
        ctx: &mut InstalledPkgs,
        name: &str,
        root_hash: Option<String>,
        pkg_contents: Option<String>,
    ) -> (record: InstalledPkg)
        requires
            old(ctx).wf(),
        ensures
            final(ctx).wf(),
            record@ == (InstalledPkgView {
                id: record@.id,
                name: name@,
                root_hash: text_of(root_hash),
                pkg_contents: text_of(pkg_contents),
            }),
            record@.id.0 == old(ctx)@.len(),
            final(ctx)@ == old(ctx)@.push(record@),
    {
        let id = InstalledPkgId(ctx.records.len() as u64);
        let record = InstalledPkg {
            id,
            name: name.to_owned(),
            root_hash: copy_text(&root_hash),
            pkg_contents: copy_text(&pkg_contents),
        };
        ctx.records.push(
            InstalledPkg { id, name: name.to_owned(), root_hash, pkg_contents },
        );
        assert(ctx@ =~= old(ctx)@.push(record@));
        record
    }

    /// The identifier of the record.
    pub fn id(&self) -> (id: InstalledPkgId)
        ensures
            id == self@.id,
    {
        self.id
    }

    /// The name of the package.
    pub fn name(&self) -> (name: &str)
        ensures
            name@ == self@.name,
    {
        self.name.as_str()
    }

    /// The hash of the root of the package, where it is known.
    pub fn root_hash(&self) -> (root_hash: Option<&str>)
        ensures
            match root_hash {
                Some(hash) => self@.root_hash == Some(hash@),
                None => self@.root_hash is None,
            },
    {
        match &self.root_hash {
            Some(hash) => Some(hash.as_str()),
            None => None,
        }
    }

    /// The contents of the package, where they are known.
    pub fn pkg_contents(&self) -> (pkg_contents: Option<&str>)
        ensures
            match pkg_contents {
                Some(contents) => self@.pkg_contents == Some(contents@),
                None => self@.pkg_contents is None,
            },
    {
        match &self.pkg_contents {
            Some(contents) => Some(contents.as_str()),
            None => None,
        }
    }
}

} // verus!
