use vstd::prelude::*;

use crate::error::{ConversionError, TxnError};
use crate::types::{DDValue, IdxId, Record, RelId, TypeTag, Update};

verus! {

/// A relation as the schema declares it.
#[derive(Clone, Debug)]
pub struct RelationDecl {
    pub name: String,
    /// Type of the relation's values.
    pub value_type: TypeTag,
    /// Type of the relation's keys, where the relation has a primary key.
    pub key_type: Option<TypeTag>,
    /// Whether callers write to the relation (an input relation).
    pub is_input: bool,
}

/// An index (arrangement) as the schema declares it.
#[derive(Clone, Debug)]
pub struct IndexDecl {
    pub name: String,
    /// Type of the keys by which the index is queried.
    pub key_type: TypeTag,
}

/// The schema: relation and index identifiers are positions in these lists.
#[derive(Clone, Debug)]
pub struct Schema {
    pub relations: Vec<RelationDecl>,
    pub indexes: Vec<IndexDecl>,
}

/// A generic command that names its relation and carries records.
#[derive(Clone, Debug)]
pub enum UpdCmd {
    Insert(String, Record),
    InsertOrUpdate(String, Record),
    Delete(String, Record),
    DeleteKey(String, Record),
    Modify(String, Record, Record),
}

/// `i` is the first relation named `name`.
pub open spec fn is_first_rel(rels: Seq<RelationDecl>, name: Seq<char>, i: int) -> bool {
    &&& 0 <= i < rels.len()
    &&& rels[i].name@ == name
    &&& forall|j: int| 0 <= j < i ==> (#[trigger] rels[j]).name@ != name
}

/// `i` is the first index named `name`.
pub open spec fn is_first_idx(idxs: Seq<IndexDecl>, name: Seq<char>, i: int) -> bool {
    &&& 0 <= i < idxs.len()
    &&& idxs[i].name@ == name
    &&& forall|j: int| 0 <= j < i ==> (#[trigger] idxs[j]).name@ != name
}

/// The identifier that the name `name` resolves to.
pub open spec fn spec_table_id(rels: Seq<RelationDecl>, name: Seq<char>) -> Option<RelId> {
    if exists|i: int| is_first_rel(rels, name, i) {
        Some((choose|i: int| is_first_rel(rels, name, i)) as RelId)
    } else {
        None
    }
}

pub proof fn lemma_first_rel_unique(rels: Seq<RelationDecl>, name: Seq<char>, i: int)
    requires
        is_first_rel(rels, name, i),
    ensures
        spec_table_id(rels, name) == Some(i as RelId),
{
    let c = choose|c: int| is_first_rel(rels, name, c);
    if c < i {
        assert(rels[c].name@ != name);
    } else if c > i {
        assert(rels[i].name@ != name);
    }
}

/// The identifier that the index name `name` resolves to.
pub open spec fn spec_index_id(idxs: Seq<IndexDecl>, name: Seq<char>) -> Option<IdxId> {
    if exists|i: int| is_first_idx(idxs, name, i) {
        Some((choose|i: int| is_first_idx(idxs, name, i)) as IdxId)
    } else {
        None
    }
}

pub proof fn lemma_first_idx_unique(idxs: Seq<IndexDecl>, name: Seq<char>, i: int)
    requires
        is_first_idx(idxs, name, i),
    ensures
        spec_index_id(idxs, name) == Some(i as IdxId),
{
    let c = choose|c: int| is_first_idx(idxs, name, c);
    if c < i {
        assert(idxs[c].name@ != name);
    } else if c > i {
        assert(idxs[i].name@ != name);
    }
}

/// The value that `rec` converts to in relation `relid`.
pub open spec fn spec_relval(rels: Seq<RelationDecl>, relid: RelId, rec: Record) -> Result<DDValue, ConversionError> {
    if rec.type_id == rels[relid as int].value_type {
        Ok(DDValue { type_id: rec.type_id, payload: rec.payload })
    } else {
        Err(ConversionError::RecordMismatch { relid, expected: rels[relid as int].value_type, actual: rec.type_id })
    }
}

/// The key that `rec` converts to in relation `relid`.
pub open spec fn spec_relkey(rels: Seq<RelationDecl>, relid: RelId, rec: Record) -> Result<DDValue, ConversionError> {
    match rels[relid as int].key_type {
        None => Err(ConversionError::NoKey(relid)),
        Some(kt) => if rec.type_id == kt {
            Ok(DDValue { type_id: rec.type_id, payload: rec.payload })
        } else {
            Err(ConversionError::RecordMismatch { relid, expected: kt, actual: rec.type_id })
        },
    }
}

/// The typed update that a generic command converts to.
pub open spec fn spec_updcmd2upd(rels: Seq<RelationDecl>, c: UpdCmd) -> Result<Update, ConversionError> {
    let name = match c {
        UpdCmd::Insert(n, _) => n,
        UpdCmd::InsertOrUpdate(n, _) => n,
        UpdCmd::Delete(n, _) => n,
        UpdCmd::DeleteKey(n, _) => n,
        UpdCmd::Modify(n, _, _) => n,
    };
    match spec_table_id(rels, name@) {
        None => Err(ConversionError::UnknownRelation(name)),
        Some(relid) => match c {
            UpdCmd::Insert(_, rec) => match spec_relval(rels, relid, rec) {
                Ok(v) => Ok(Update::Insert { relid, v }),
                Err(e) => Err(e),
            },
            UpdCmd::InsertOrUpdate(_, rec) => match spec_relval(rels, relid, rec) {
                Ok(v) => Ok(Update::InsertOrUpdate { relid, v }),
                Err(e) => Err(e),
            },
            UpdCmd::Delete(_, rec) => match spec_relval(rels, relid, rec) {
                Ok(v) => Ok(Update::DeleteValue { relid, v }),
                Err(e) => Err(e),
            },
            UpdCmd::DeleteKey(_, rec) => match spec_relkey(rels, relid, rec) {
                Ok(k) => Ok(Update::DeleteKey { relid, k }),
                Err(e) => Err(e),
            },
            UpdCmd::Modify(_, key, m) => match spec_relkey(rels, relid, key) {
                Ok(k) => Ok(Update::Modify { relid, k, m }),
                Err(e) => Err(e),
            },
        },
    }
}

/// The outcome of checking `u` against the schema.
pub open spec fn spec_validate(rels: Seq<RelationDecl>, u: Update) -> Result<(), TxnError> {
    if u.spec_relid() >= rels.len() {
        Err(TxnError::UnknownRelationId(u.spec_relid()))
    } else {
        match u.spec_value() {
            Some(v) => if v.type_id != rels[u.spec_relid() as int].value_type {
                Err(TxnError::TypeMismatch {
                    relid: u.spec_relid(),
                    expected: rels[u.spec_relid() as int].value_type,
                    actual: v.type_id,
                })
            } else {
                Ok(())
            },
            None => Ok(()),
        }
    }
}

/// The first failure among a batch's updates, or `Ok` where all pass.
pub open spec fn spec_validate_all(rels: Seq<RelationDecl>, us: Seq<Update>) -> Result<(), TxnError>
    decreases us.len(),
{
    if us.len() == 0 {
        Ok(())
    } else {
        match spec_validate_all(rels, us.drop_last()) {
            Ok(()) => spec_validate(rels, us.last()),
            Err(e) => Err(e),
        }
    }
}

/// A generic batch converted up to its first bad command: the updates
/// converted before it, and its position and error where there is one.
pub open spec fn spec_convert_all(rels: Seq<RelationDecl>, cs: Seq<UpdCmd>) -> (Seq<Update>, Option<(int, ConversionError)>)
    decreases cs.len(),
{
    if cs.len() == 0 {
        (Seq::empty(), None)
    } else {
        let (us, bad) = spec_convert_all(rels, cs.drop_last());
        match bad {
            Some(b) => (us, Some(b)),
            None => match spec_updcmd2upd(rels, cs.last()) {
                Ok(u) => (us.push(u), None),
                Err(e) => (us, Some(((cs.len() - 1) as int, e))),
            },
        }
    }
}

impl Schema {
    pub open spec fn spec_get_table_id(&self, tname: &String) -> Result<RelId, TxnError> {
        match spec_table_id(self.relations@, tname@) {
            Some(i) => Ok(i),
            None => Err(TxnError::UnknownRelation(*tname)),
        }
    }

    pub open spec fn spec_get_index_id(&self, iname: &String) -> Result<IdxId, TxnError> {
        match spec_index_id(self.indexes@, iname@) {
            Some(i) => Ok(i),
            None => Err(TxnError::UnknownIndex(*iname)),
        }
    }

    /// The typed key that `rec` converts to for index `idxid`.
    pub open spec fn spec_idxkey(&self, idxid: IdxId, rec: Record) -> Result<DDValue, TxnError> {
        if idxid >= self.indexes@.len() {
            Err(TxnError::UnknownIndexId(idxid))
        } else if rec.type_id == self.indexes@[idxid as int].key_type {
            Ok(DDValue { type_id: rec.type_id, payload: rec.payload })
        } else {
            Err(TxnError::InvalidCommand {
                position: 0,
                cause: ConversionError::KeyMismatch {
                    idxid,
                    expected: self.indexes@[idxid as int].key_type,
                    actual: rec.type_id,
                },
            })
        }
    }

    fn find_relation(&self, tname: &String) -> (r: Option<RelId>)
        ensures
            match r {
                Some(i) => is_first_rel(self.relations@, tname@, i as int),
                None => forall|j: int| 0 <= j < self.relations@.len() ==> (#[trigger] self.relations@[j]).name@ != tname@,
            },
    {
        let mut i: usize = 0;
        while i < self.relations.len()
            invariant
                i <= self.relations@.len(),
                forall|j: int| 0 <= j < i ==> (#[trigger] self.relations@[j]).name@ != tname@,
            decreases self.relations@.len() - i,
        {
            if self.relations[i].name == *tname {
                return Some(i);
            }
            i = i + 1;
        }
        None
    }

    /// Resolves a relation name to its identifier.
    pub fn get_table_id(&self, tname: &String) -> (r: Result<RelId, TxnError>)
        ensures
            r == self.spec_get_table_id(tname),
    {
        match self.find_relation(tname) {
            Some(i) => {
                proof { lemma_first_rel_unique(self.relations@, tname@, i as int); }
                Ok(i)
            },
            None => Err(TxnError::UnknownRelation(tname.clone())),
        }
    }

    /// The name of relation `tid`.
    pub fn get_table_name(&self, tid: RelId) -> (r: Result<String, TxnError>)
        ensures
            tid < self.relations@.len() ==> r is Ok && r->Ok_0@ == self.relations@[tid as int].name@,
            tid >= self.relations@.len() ==> r == Err::<String, TxnError>(TxnError::UnknownRelationId(tid)),
    {
        if tid < self.relations.len() {
            Ok(self.relations[tid].name.clone())
        } else {
            Err(TxnError::UnknownRelationId(tid))
        }
    }

    /// Resolves an index name to its identifier: the first index of that name.
    pub fn get_index_id(&self, iname: &String) -> (r: Result<IdxId, TxnError>)
        ensures
            r == self.spec_get_index_id(iname),
    {
        let mut i: usize = 0;
        while i < self.indexes.len()
            invariant
                i <= self.indexes@.len(),
                forall|j: int| 0 <= j < i ==> (#[trigger] self.indexes@[j]).name@ != iname@,
            decreases self.indexes@.len() - i,
        {
            if self.indexes[i].name == *iname {
                proof { lemma_first_idx_unique(self.indexes@, iname@, i as int); }
                return Ok(i);
            }
            i = i + 1;
        }
        Err(TxnError::UnknownIndex(iname.clone()))
    }

    /// The name of index `iid`.
    pub fn get_index_name(&self, iid: IdxId) -> (r: Result<String, TxnError>)
        ensures
            iid < self.indexes@.len() ==> r is Ok && r->Ok_0@ == self.indexes@[iid as int].name@,
            iid >= self.indexes@.len() ==> r == Err::<String, TxnError>(TxnError::UnknownIndexId(iid)),
    {
        if iid < self.indexes.len() {
            Ok(self.indexes[iid].name.clone())
        } else {
            Err(TxnError::UnknownIndexId(iid))
        }
    }

    /// Converts a record to a value of relation `relid`.
    pub fn relval_from_record(&self, relid: RelId, rec: &Record) -> (r: Result<DDValue, ConversionError>)
        requires
            relid < self.relations@.len(),
        ensures
            r == spec_relval(self.relations@, relid, *rec),
    {
        let expected = self.relations[relid].value_type;
        if rec.type_id == expected {
            Ok(DDValue { type_id: rec.type_id, payload: rec.payload })
        } else {
            Err(ConversionError::RecordMismatch { relid, expected, actual: rec.type_id })
        }
    }

    /// Converts a record to a key of relation `relid`.
    pub fn relkey_from_record(&self, relid: RelId, rec: &Record) -> (r: Result<DDValue, ConversionError>)
        requires
            relid < self.relations@.len(),
        ensures
            r == spec_relkey(self.relations@, relid, *rec),
    {
        match self.relations[relid].key_type {
            None => Err(ConversionError::NoKey(relid)),
            Some(kt) => if rec.type_id == kt {
                Ok(DDValue { type_id: rec.type_id, payload: rec.payload })
            } else {
                Err(ConversionError::RecordMismatch { relid, expected: kt, actual: rec.type_id })
            },
        }
    }

    /// Converts a record to a key of index `idxid`.
    pub fn idxkey_from_record(&self, idxid: IdxId, rec: &Record) -> (r: Result<DDValue, TxnError>)
        ensures
            r == self.spec_idxkey(idxid, *rec),
    {
        if idxid >= self.indexes.len() {
            return Err(TxnError::UnknownIndexId(idxid));
        }
        let expected = self.indexes[idxid].key_type;
        if rec.type_id == expected {
            Ok(DDValue { type_id: rec.type_id, payload: rec.payload })
        } else {
            Err(TxnError::InvalidCommand {
                position: 0,
                cause: ConversionError::KeyMismatch { idxid, expected, actual: rec.type_id },
            })
        }
    }

    /// Checks a typed update against the schema.
    pub fn validate_update(&self, u: &Update) -> (r: Result<(), TxnError>)
        ensures
            r == spec_validate(self.relations@, *u),
    {
        let relid = u.relid();
        if relid >= self.relations.len() {
            return Err(TxnError::UnknownRelationId(relid));
        }
        match u.get_value() {
            Some(v) => {
                let expected = self.relations[relid].value_type;
                if v.type_id != expected {
                    return Err(TxnError::TypeMismatch { relid, expected, actual: v.type_id });
                }
                Ok(())
            },
            None => Ok(()),
        }
    }
}

/// Converts a generic command to a typed update: resolves the relation name,
/// then converts the record to the relation's value or key type.
pub fn updcmd2upd(schema: &Schema, c: &UpdCmd) -> (r: Result<Update, ConversionError>)
    ensures
        r == spec_updcmd2upd(schema.relations@, *c),
{
    let name = match c {
        UpdCmd::Insert(n, _) => n,
        UpdCmd::InsertOrUpdate(n, _) => n,
        UpdCmd::Delete(n, _) => n,
        UpdCmd::DeleteKey(n, _) => n,
        UpdCmd::Modify(n, _, _) => n,
    };
    let relid = match schema.find_relation(name) {
        Some(i) => {
            proof { lemma_first_rel_unique(schema.relations@, name@, i as int); }
            i
        },
        None => {
            return Err(ConversionError::UnknownRelation(name.clone()));
        },
    };
    match c {
        UpdCmd::Insert(_, rec) => {
            let v = schema.relval_from_record(relid, rec)?;
            Ok(Update::Insert { relid, v })
        },
        UpdCmd::InsertOrUpdate(_, rec) => {
            let v = schema.relval_from_record(relid, rec)?;
            Ok(Update::InsertOrUpdate { relid, v })
        },
        UpdCmd::Delete(_, rec) => {
            let v = schema.relval_from_record(relid, rec)?;
            Ok(Update::DeleteValue { relid, v })
        },
        UpdCmd::DeleteKey(_, rec) => {
            let k = schema.relkey_from_record(relid, rec)?;
            Ok(Update::DeleteKey { relid, k })
        },
        UpdCmd::Modify(_, key, m) => {
            let k = schema.relkey_from_record(relid, key)?;
            Ok(Update::Modify { relid, k, m: *m })
        },
    }
}

} // verus!
