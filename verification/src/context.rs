//! The script being validated: which inputs and outputs belong to it, and
//! which lock and type scripts the transaction holds at all.

use vstd::prelude::*;

use crate::error::CoreError;
use crate::layout::{OtxLayoutEntry, Range};
use crate::plan::OtxTypeRelation;
use crate::protocol::ScriptRole;
use crate::reader::hash32_eq;
use crate::view::{spec_cell_mask_bit, ActionModel, ActionView};

verus! {

/// The script being validated: an input lock or a type script, by its hash.
#[derive(Clone, Copy, Debug, PartialEq, Eq)]
pub enum CurrentScript {
    InputLock([u8; 32]),
    Type([u8; 32]),
}

#[derive(Clone, Debug)]
enum CurrentScriptIndices {
    Lock { input_indices: Vec<usize> },
    Type { input_indices: Vec<usize>, output_indices: Vec<usize> },
}

#[derive(Clone, Debug)]
struct ScriptHashes {
    input_locks: Vec<[u8; 32]>,
    input_types: Vec<[u8; 32]>,
    output_types: Vec<[u8; 32]>,
}

/// The indexes below `n` whose lock hash is `h`, in order.
pub open spec fn spec_lock_indices(locks: Seq<[u8; 32]>, h: Seq<u8>, n: nat) -> Seq<usize>
    decreases n,
{
    if n == 0 {
        Seq::empty()
    } else {
        let prev = spec_lock_indices(locks, h, (n - 1) as nat);
        if locks[n - 1]@ == h {
            prev.push((n - 1) as usize)
        } else {
            prev
        }
    }
}

/// The indexes below `n` whose type hash is `h`, in order.
pub open spec fn spec_type_indices(types: Seq<Option<[u8; 32]>>, h: Seq<u8>, n: nat) -> Seq<usize>
    decreases n,
{
    if n == 0 {
        Seq::empty()
    } else {
        let prev = spec_type_indices(types, h, (n - 1) as nat);
        if spec_type_is(types[n - 1], h) {
            prev.push((n - 1) as usize)
        } else {
            prev
        }
    }
}

/// The optional type hash is `h`.
pub open spec fn spec_type_is(t: Option<[u8; 32]>, h: Seq<u8>) -> bool {
    t matches Some(x) && x@ == h
}

/// Some hash of the list is `h`.
pub open spec fn spec_listed(hashes: Seq<[u8; 32]>, h: Seq<u8>) -> bool {
    exists|i: int| 0 <= i < hashes.len() && (#[trigger] hashes[i])@ == h
}

/// Some of the first `n` lock hashes is `h`.
pub open spec fn spec_lock_listed(locks: Seq<[u8; 32]>, h: Seq<u8>, n: int) -> bool {
    exists|i: int| 0 <= i < n && (#[trigger] locks[i])@ == h
}

/// Some of the first `n` type hashes is `h`.
pub open spec fn spec_type_listed(types: Seq<Option<[u8; 32]>>, h: Seq<u8>, n: int) -> bool {
    exists|i: int| 0 <= i < n && spec_type_is(#[trigger] types[i], h)
}

/// `index` lies in the range, its end clamped to the largest index.
pub open spec fn spec_range_holds(r: Range, index: int) -> bool {
    let end = if r.start + r.count > usize::MAX { usize::MAX as int } else { r.start + r.count };
    r.start <= index && index < end
}

/// Some index of the list lies in the range.
pub open spec fn spec_any_in(v: Seq<usize>, r: Range) -> bool {
    exists|k: int| 0 <= k < v.len() && spec_range_holds(r, #[trigger] v[k] as int)
}

/// Some index of the list lies outside the range.
pub open spec fn spec_any_outside(v: Seq<usize>, r: Range) -> bool {
    exists|k: int| 0 <= k < v.len() && !spec_range_holds(r, #[trigger] v[k] as int)
}

/// From base output `k` of the range on: the first base output of the
/// current type whose type field the OTX signs, read in order; a missing
/// mask bit or an index past the largest is a layout error.
pub open spec fn spec_covered_from(outputs: Seq<usize>, r: Range, mask: Seq<u8>, k: int) -> Result<bool, CoreError>
    decreases r.count - k,
{
    if k >= r.count {
        Ok(false)
    } else if r.start + k > usize::MAX {
        Err(CoreError::InvalidOtxLayout)
    } else if !outputs.contains((r.start + k) as usize) {
        spec_covered_from(outputs, r, mask, k + 1)
    } else {
        match spec_cell_mask_bit(mask, k, 4, 2) {
            None => Err(CoreError::InvalidOtxLayout),
            Some(true) => Ok(true),
            Some(false) => spec_covered_from(outputs, r, mask, k + 1),
        }
    }
}

/// The context describes `current_script` over the script hashes of the
/// first `input_count` inputs and `output_count` outputs.
pub open spec fn spec_context_for(
    c: CurrentScriptContext,
    current_script: CurrentScript,
    input_count: int,
    output_count: int,
    input_locks: Seq<[u8; 32]>,
    input_types: Seq<Option<[u8; 32]>>,
    output_types: Seq<Option<[u8; 32]>>,
) -> bool {
    &&& c.spec_script() == current_script
    &&& match current_script {
        CurrentScript::InputLock(h) => c.spec_lock_inputs() == Some(spec_lock_indices(input_locks, h@, input_count as nat))
            && c.spec_type_cells() is None,
        CurrentScript::Type(h) => c.spec_lock_inputs() is None && c.spec_type_cells() == Some(
            (spec_type_indices(input_types, h@, input_count as nat), spec_type_indices(output_types, h@, output_count as nat)),
        ),
    }
    &&& forall|h: Seq<u8>| #[trigger] c.spec_has_input_lock(h) <==> spec_lock_listed(input_locks, h, input_count)
    &&& forall|h: Seq<u8>| #[trigger] c.spec_has_input_type(h) <==> spec_type_listed(input_types, h, input_count)
    &&& forall|h: Seq<u8>| #[trigger] c.spec_has_output_type(h) <==> spec_type_listed(output_types, h, output_count)
}

/// The current script and the positions of its cells, with the script
/// hashes the transaction holds.
#[derive(Clone, Debug)]
pub struct CurrentScriptContext {
    current_script: CurrentScript,
    indices: CurrentScriptIndices,
    script_hashes: ScriptHashes,
}

fn contains_hash(hashes: &Vec<[u8; 32]>, h: &[u8; 32]) -> (res: bool)
    ensures
        res == spec_listed(hashes@, h@),
{
    let mut i: usize = 0;
    while i < hashes.len()
        invariant
            0 <= i <= hashes@.len(),
            forall|j: int| 0 <= j < i ==> (#[trigger] hashes@[j])@ != h@,
        decreases hashes@.len() - i,
    {
        if hash32_eq(&hashes[i], h) {
            return true;
        }
        i = i + 1;
    }
    false
}

fn insert_hash(hashes: &mut Vec<[u8; 32]>, h: [u8; 32])
    ensures
        forall|x: Seq<u8>| spec_listed(final(hashes)@, x) <==> (spec_listed(old(hashes)@, x) || x == h@),
{
    if !contains_hash(hashes, &h) {
        let ghost before = hashes@;
        hashes.push(h);
        proof {
            assert forall|x: Seq<u8>| spec_listed(hashes@, x) <==> (spec_listed(before, x) || x == h@) by {
                if spec_listed(before, x) {
                    let i = choose|i: int| 0 <= i < before.len() && (#[trigger] before[i])@ == x;
                    assert(hashes@[i] == before[i]);
                }
                if x == h@ {
                    assert(hashes@[before.len() as int]@ == x);
                }
                if spec_listed(hashes@, x) {
                    let i = choose|i: int| 0 <= i < hashes@.len() && (#[trigger] hashes@[i])@ == x;
                    if i < before.len() {
                        assert(before[i] == hashes@[i]);
                    }
                }
            }
        }
    }
}

fn contains_index(v: &[usize], x: usize) -> (res: bool)
    ensures
        res == v@.contains(x),
{
    let mut i: usize = 0;
    while i < v.len()
        invariant
            0 <= i <= v@.len(),
            forall|j: int| 0 <= j < i ==> v@[j] != x,
        decreases v@.len() - i,
    {
        if v[i] == x {
            proof {
                assert(v@[i as int] == x);
            }
            return true;
        }
        i = i + 1;
    }
    false
}

/// Whether `index` lies in the range, its end clamped to the largest index.
pub fn range_contains(range: Range, index: usize) -> (res: bool)
    ensures
        res == spec_range_holds(range, index as int),
{
    let end = if range.start > usize::MAX - range.count {
        usize::MAX
    } else {
        range.start + range.count
    };
    index >= range.start && index < end
}

pub fn any_in_range(v: &[usize], range: Range) -> (res: bool)
    ensures
        res == spec_any_in(v@, range),
{
    let mut i: usize = 0;
    while i < v.len()
        invariant
            0 <= i <= v@.len(),
            forall|j: int| 0 <= j < i ==> !spec_range_holds(range, #[trigger] v@[j] as int),
        decreases v@.len() - i,
    {
        if range_contains(range, v[i]) {
            return true;
        }
        i = i + 1;
    }
    false
}

pub fn any_outside_range(v: &[usize], range: Range) -> (res: bool)
    ensures
        res == spec_any_outside(v@, range),
{
    let mut i: usize = 0;
    while i < v.len()
        invariant
            0 <= i <= v@.len(),
            forall|j: int| 0 <= j < i ==> spec_range_holds(range, #[trigger] v@[j] as int),
        decreases v@.len() - i,
    {
        if !range_contains(range, v[i]) {
            return true;
        }
        i = i + 1;
    }
    false
}

impl CurrentScriptContext {
    /// The script being validated.
    pub closed spec fn spec_script(&self) -> CurrentScript {
        self.current_script
    }

    /// The inputs the current lock guards, when it is a lock.
    pub closed spec fn spec_lock_inputs(&self) -> Option<Seq<usize>> {
        match self.indices {
            CurrentScriptIndices::Lock { input_indices } => Some(input_indices@),
            _ => None,
        }
    }

    /// The inputs and outputs of the current type, when it is a type.
    pub closed spec fn spec_type_cells(&self) -> Option<(Seq<usize>, Seq<usize>)> {
        match self.indices {
            CurrentScriptIndices::Type { input_indices, output_indices } => Some((input_indices@, output_indices@)),
            _ => None,
        }
    }

    /// Some input has lock hash `h`.
    pub closed spec fn spec_has_input_lock(&self, h: Seq<u8>) -> bool {
        spec_listed(self.script_hashes.input_locks@, h)
    }

    /// Some input has type hash `h`.
    pub closed spec fn spec_has_input_type(&self, h: Seq<u8>) -> bool {
        spec_listed(self.script_hashes.input_types@, h)
    }

    /// Some output has type hash `h`.
    pub closed spec fn spec_has_output_type(&self, h: Seq<u8>) -> bool {
        spec_listed(self.script_hashes.output_types@, h)
    }

    /// The positions kept match the kind of the current script.
    pub open spec fn wf(&self) -> bool {
        &&& (self.spec_script() is InputLock) == (self.spec_lock_inputs() is Some)
        &&& (self.spec_script() is Type) == (self.spec_type_cells() is Some)
    }

    /// An action may name the script `h` in role `role`: the transaction holds it there.
    pub open spec fn spec_target_listed(&self, role: ScriptRole, h: Seq<u8>) -> bool {
        match role {
            ScriptRole::InputLock => self.spec_has_input_lock(h),
            ScriptRole::InputType => self.spec_has_input_type(h),
            ScriptRole::OutputType => self.spec_has_output_type(h),
        }
    }

    /// Builds the context from the script hashes of the first `input_count`
    /// inputs and `output_count` outputs; a hash list that is too short is a
    /// context error.
    pub fn from_script_hashes(
        current_script: CurrentScript,
        input_count: usize,
        output_count: usize,
        input_locks: &[[u8; 32]],
        input_types: &[Option<[u8; 32]>],
        output_types: &[Option<[u8; 32]>],
    ) -> (res: Result<CurrentScriptContext, CoreError>)
        ensures
            res is Ok <==> (input_count <= input_locks@.len() && input_count <= input_types@.len()
                && output_count <= output_types@.len()),
            res matches Err(e) ==> e == CoreError::InvalidContextInput,
            res matches Ok(c) ==> spec_context_for(c, current_script, input_count as int, output_count as int, input_locks@, input_types@, output_types@),
            res matches Ok(c) ==> {
                &&& c.wf()
                &&& c.spec_script() == current_script
                &&& match current_script {
                    CurrentScript::InputLock(h) => c.spec_lock_inputs() == Some(spec_lock_indices(input_locks@, h@, input_count as nat))
                        && c.spec_type_cells() is None,
                    CurrentScript::Type(h) => c.spec_lock_inputs() is None && c.spec_type_cells() == Some(
                        (spec_type_indices(input_types@, h@, input_count as nat), spec_type_indices(output_types@, h@, output_count as nat)),
                    ),
                }
                &&& forall|h: Seq<u8>| #[trigger] c.spec_has_input_lock(h) <==> spec_lock_listed(input_locks@, h, input_count as int)
                &&& forall|h: Seq<u8>| #[trigger] c.spec_has_input_type(h) <==> spec_type_listed(input_types@, h, input_count as int)
                &&& forall|h: Seq<u8>| #[trigger] c.spec_has_output_type(h) <==> spec_type_listed(output_types@, h, output_count as int)
            },
    {
        if input_count > input_locks.len() || input_count > input_types.len() || output_count > output_types.len() {
            return Err(CoreError::InvalidContextInput);
        }
        let mut lock_inputs: Vec<usize> = Vec::new();
        let mut type_inputs: Vec<usize> = Vec::new();
        let mut type_outputs: Vec<usize> = Vec::new();
        let mut locks: Vec<[u8; 32]> = Vec::new();
        let mut in_types: Vec<[u8; 32]> = Vec::new();
        let mut out_types: Vec<[u8; 32]> = Vec::new();
        let mut index: usize = 0;
        while index < input_count
            invariant
                input_count <= input_locks@.len(),
                input_count <= input_types@.len(),
                0 <= index <= input_count,
                current_script matches CurrentScript::InputLock(h) ==> lock_inputs@ == spec_lock_indices(input_locks@, h@, index as nat),
                current_script matches CurrentScript::Type(h) ==> type_inputs@ == spec_type_indices(input_types@, h@, index as nat),
                forall|h: Seq<u8>| spec_listed(locks@, h) <==> spec_lock_listed(input_locks@, h, index as int),
                forall|h: Seq<u8>| spec_listed(in_types@, h) <==> spec_type_listed(input_types@, h, index as int),
            decreases input_count - index,
        {
            let lock_hash = input_locks[index];
            insert_hash(&mut locks, lock_hash);
            match current_script {
                CurrentScript::InputLock(h) => {
                    if hash32_eq(&h, &lock_hash) {
                        lock_inputs.push(index);
                    }
                },
                _ => {},
            }
            match input_types[index] {
                Some(type_hash) => {
                    insert_hash(&mut in_types, type_hash);
                    match current_script {
                        CurrentScript::Type(h) => {
                            if hash32_eq(&h, &type_hash) {
                                type_inputs.push(index);
                            }
                        },
                        _ => {},
                    }
                },
                None => {},
            }
            proof {
                assert forall|h: Seq<u8>| spec_lock_listed(input_locks@, h, index + 1) <==> (spec_lock_listed(input_locks@, h, index as int) || h == input_locks@[index as int]@) by {
                    if spec_lock_listed(input_locks@, h, index + 1) {
                        let i = choose|i: int| 0 <= i < index + 1 && (#[trigger] input_locks@[i])@ == h;
                        if i < index {
                            assert(spec_lock_listed(input_locks@, h, index as int));
                        }
                    }
                }
                assert forall|h: Seq<u8>| spec_type_listed(input_types@, h, index + 1) <==> (spec_type_listed(input_types@, h, index as int)
                    || spec_type_is(input_types@[index as int], h)) by {
                    if spec_type_listed(input_types@, h, index + 1) {
                        let i = choose|i: int| 0 <= i < index + 1 && spec_type_is(#[trigger] input_types@[i], h);
                        if i < index {
                            assert(spec_type_listed(input_types@, h, index as int));
                        }
                    }
                }
            }
            index = index + 1;
        }
        let mut index: usize = 0;
        while index < output_count
            invariant
                output_count <= output_types@.len(),
                0 <= index <= output_count,
                current_script matches CurrentScript::Type(h) ==> type_outputs@ == spec_type_indices(output_types@, h@, index as nat),
                forall|h: Seq<u8>| spec_listed(out_types@, h) <==> spec_type_listed(output_types@, h, index as int),
            decreases output_count - index,
        {
            match output_types[index] {
                Some(type_hash) => {
                    insert_hash(&mut out_types, type_hash);
                    match current_script {
                        CurrentScript::Type(h) => {
                            if hash32_eq(&h, &type_hash) {
                                type_outputs.push(index);
                            }
                        },
                        _ => {},
                    }
                },
                None => {},
            }
            proof {
                assert forall|h: Seq<u8>| spec_type_listed(output_types@, h, index + 1) <==> (spec_type_listed(output_types@, h, index as int)
                    || spec_type_is(output_types@[index as int], h)) by {
                    if spec_type_listed(output_types@, h, index + 1) {
                        let i = choose|i: int| 0 <= i < index + 1 && spec_type_is(#[trigger] output_types@[i], h);
                        if i < index {
                            assert(spec_type_listed(output_types@, h, index as int));
                        }
                    }
                }
            }
            index = index + 1;
        }
        let indices = match current_script {
            CurrentScript::InputLock(_) => CurrentScriptIndices::Lock { input_indices: lock_inputs },
            CurrentScript::Type(_) => CurrentScriptIndices::Type { input_indices: type_inputs, output_indices: type_outputs },
        };
        Ok(CurrentScriptContext {
            current_script,
            indices,
            script_hashes: ScriptHashes { input_locks: locks, input_types: in_types, output_types: out_types },
        })
    }

    /// The script being validated.
    pub fn current_script(&self) -> (res: CurrentScript)
        ensures
            res == self.spec_script(),
    {
        self.current_script
    }

    /// The distinct lock hashes of the inputs.
    pub fn input_lock_hashes(&self) -> (res: &[[u8; 32]])
        ensures
            forall|h: Seq<u8>| spec_listed(res@, h) <==> self.spec_has_input_lock(h),
    {
        self.script_hashes.input_locks.as_slice()
    }

    /// The distinct type hashes of the inputs.
    pub fn input_type_hashes(&self) -> (res: &[[u8; 32]])
        ensures
            forall|h: Seq<u8>| spec_listed(res@, h) <==> self.spec_has_input_type(h),
    {
        self.script_hashes.input_types.as_slice()
    }

    /// The distinct type hashes of the outputs.
    pub fn output_type_hashes(&self) -> (res: &[[u8; 32]])
        ensures
            forall|h: Seq<u8>| spec_listed(res@, h) <==> self.spec_has_output_type(h),
    {
        self.script_hashes.output_types.as_slice()
    }

    /// The hash of the current lock; a type script has none.
    pub fn current_lock_hash(&self) -> (res: Result<[u8; 32], CoreError>)
        ensures
            res == match self.spec_script() {
                CurrentScript::InputLock(h) => Ok::<[u8; 32], CoreError>(h),
                CurrentScript::Type(_) => Err(CoreError::InvalidContextInput),
            },
    {
        match self.current_script {
            CurrentScript::InputLock(lock_hash) => Ok(lock_hash),
            CurrentScript::Type(_) => Err(CoreError::InvalidContextInput),
        }
    }

    /// The hash of the current type; a lock has none.
    pub fn current_type_hash(&self) -> (res: Result<[u8; 32], CoreError>)
        ensures
            res == match self.spec_script() {
                CurrentScript::Type(h) => Ok::<[u8; 32], CoreError>(h),
                CurrentScript::InputLock(_) => Err(CoreError::InvalidContextInput),
            },
    {
        match self.current_script {
            CurrentScript::Type(type_hash) => Ok(type_hash),
            CurrentScript::InputLock(_) => Err(CoreError::InvalidContextInput),
        }
    }

    /// The inputs the current lock guards, in order.
    pub fn current_lock_inputs(&self) -> (res: Result<&[usize], CoreError>)
        ensures
            match self.spec_lock_inputs() {
                Some(v) => res matches Ok(s) && s@ == v,
                None => res == Err::<&[usize], CoreError>(CoreError::InvalidContextInput),
            },
    {
        match &self.indices {
            CurrentScriptIndices::Lock { input_indices } => Ok(input_indices.as_slice()),
            CurrentScriptIndices::Type { .. } => Err(CoreError::InvalidContextInput),
        }
    }

    /// The inputs of the current type, in order.
    pub fn type_input_indices(&self) -> (res: Result<&[usize], CoreError>)
        ensures
            match self.spec_type_cells() {
                Some((i, _)) => res matches Ok(s) && s@ == i,
                None => res == Err::<&[usize], CoreError>(CoreError::InvalidContextInput),
            },
    {
        match &self.indices {
            CurrentScriptIndices::Type { input_indices, .. } => Ok(input_indices.as_slice()),
            CurrentScriptIndices::Lock { .. } => Err(CoreError::InvalidContextInput),
        }
    }

    /// The outputs of the current type, in order.
    pub fn type_output_indices(&self) -> (res: Result<&[usize], CoreError>)
        ensures
            match self.spec_type_cells() {
                Some((_, o)) => res matches Ok(s) && s@ == o,
                None => res == Err::<&[usize], CoreError>(CoreError::InvalidContextInput),
            },
    {
        match &self.indices {
            CurrentScriptIndices::Type { output_indices, .. } => Ok(output_indices.as_slice()),
            CurrentScriptIndices::Lock { .. } => Err(CoreError::InvalidContextInput),
        }
    }

    /// Some input of the current lock lies in the range.
    pub fn input_range_contains_current_lock(&self, range: Range) -> (res: Result<bool, CoreError>)
        ensures
            match self.spec_lock_inputs() {
                Some(v) => res == Ok::<bool, CoreError>(spec_any_in(v, range)),
                None => res == Err::<bool, CoreError>(CoreError::InvalidContextInput),
            },
    {
        let inputs = self.current_lock_inputs()?;
        Ok(any_in_range(inputs, range))
    }

    /// Some input of the current lock lies outside the range.
    pub fn current_lock_has_inputs_outside_range(&self, range: Range) -> (res: Result<bool, CoreError>)
        ensures
            match self.spec_lock_inputs() {
                Some(v) => res == Ok::<bool, CoreError>(spec_any_outside(v, range)),
                None => res == Err::<bool, CoreError>(CoreError::InvalidContextInput),
            },
    {
        let inputs = self.current_lock_inputs()?;
        Ok(any_outside_range(inputs, range))
    }

    /// Every input of the current lock lies in the range.
    pub fn all_current_lock_inputs_in_range(&self, range: Range) -> (res: Result<bool, CoreError>)
        ensures
            match self.spec_lock_inputs() {
                Some(v) => res == Ok::<bool, CoreError>(!spec_any_outside(v, range)),
                None => res == Err::<bool, CoreError>(CoreError::InvalidContextInput),
            },
    {
        let inputs = self.current_lock_inputs()?;
        Ok(!any_outside_range(inputs, range))
    }

    /// Some cell of the current type exists.
    pub fn current_type_present(&self) -> (res: Result<bool, CoreError>)
        ensures
            match self.spec_type_cells() {
                Some((i, o)) => res == Ok::<bool, CoreError>(i.len() > 0 || o.len() > 0),
                None => res == Err::<bool, CoreError>(CoreError::InvalidContextInput),
            },
    {
        let inputs = self.type_input_indices()?;
        let outputs = self.type_output_indices()?;
        Ok(inputs.len() != 0 || outputs.len() != 0)
    }

    /// Some cell of the current type lies outside the given input or output range.
    pub fn current_type_outside_ranges(&self, input_range: Range, output_range: Range) -> (res: Result<bool, CoreError>)
        ensures
            match self.spec_type_cells() {
                Some((i, o)) => res == Ok::<bool, CoreError>(spec_any_outside(i, input_range) || spec_any_outside(o, output_range)),
                None => res == Err::<bool, CoreError>(CoreError::InvalidContextInput),
            },
    {
        let inputs = self.type_input_indices()?;
        if any_outside_range(inputs, input_range) {
            return Ok(true);
        }
        let outputs = self.type_output_indices()?;
        Ok(any_outside_range(outputs, output_range))
    }

    /// Every action names a script the transaction holds in the action's role.
    pub fn validate_action_targets(&self, actions: &[ActionView]) -> (res: Result<(), CoreError>)
        ensures
            res is Ok <==> forall|k: int|
                0 <= k < actions@.len() ==> self.spec_target_listed((#[trigger] actions@[k]).script_role, actions@[k].script_hash@),
            res matches Err(e) ==> e == CoreError::InvalidMessageTarget,
    {
        let mut k: usize = 0;
        while k < actions.len()
            invariant
                0 <= k <= actions@.len(),
                forall|j: int| 0 <= j < k ==> self.spec_target_listed((#[trigger] actions@[j]).script_role, actions@[j].script_hash@),
            decreases actions@.len() - k,
        {
            let action = &actions[k];
            let listed = match action.script_role {
                ScriptRole::InputLock => contains_hash(&self.script_hashes.input_locks, &action.script_hash),
                ScriptRole::InputType => contains_hash(&self.script_hashes.input_types, &action.script_hash),
                ScriptRole::OutputType => contains_hash(&self.script_hashes.output_types, &action.script_hash),
            };
            if !listed {
                return Err(CoreError::InvalidMessageTarget);
            }
            k = k + 1;
        }
        Ok(())
    }

    /// Where the current type's cells lie within an OTX: in its base or
    /// appended inputs and outputs, and whether a base output of the type has
    /// its type field signed.
    pub fn type_relation_for_otx(&self, otx: &OtxLayoutEntry) -> (res: Result<OtxTypeRelation, CoreError>)
        requires
            otx.layout.base_outputs.count * 4 <= usize::MAX,
        ensures
            match self.spec_type_cells() {
                None => res == Err::<OtxTypeRelation, CoreError>(CoreError::InvalidContextInput),
                Some((i, o)) => match spec_covered_from(o, otx.layout.base_outputs, otx.witness@.base_output_masks, 0) {
                    Err(e) => res == Err::<OtxTypeRelation, CoreError>(e),
                    Ok(covered) => res == Ok::<OtxTypeRelation, CoreError>(
                        OtxTypeRelation {
                            input_type_in_base: spec_any_in(i, otx.layout.base_inputs),
                            input_type_in_append: spec_any_in(i, otx.layout.append_inputs),
                            output_type_in_base: spec_any_in(o, otx.layout.base_outputs),
                            output_type_in_base_covered: covered,
                            output_type_in_append: spec_any_in(o, otx.layout.append_outputs),
                        },
                    ),
                },
            },
    {
        let inputs = self.type_input_indices()?;
        let outputs = self.type_output_indices()?;
        let input_type_in_base = any_in_range(inputs, otx.layout.base_inputs);
        let input_type_in_append = any_in_range(inputs, otx.layout.append_inputs);
        let output_type_in_base = any_in_range(outputs, otx.layout.base_outputs);
        let output_type_in_base_covered = covered_current_type_in_base_outputs(outputs, otx)?;
        let output_type_in_append = any_in_range(outputs, otx.layout.append_outputs);
        Ok(OtxTypeRelation {
            input_type_in_base,
            input_type_in_append,
            output_type_in_base,
            output_type_in_base_covered,
            output_type_in_append,
        })
    }
}

/// Whether an output of the current type in an OTX's base outputs has its
/// type covered by the base output mask.
fn covered_current_type_in_base_outputs(outputs: &[usize], otx: &OtxLayoutEntry) -> (res: Result<bool, CoreError>)
    requires
        otx.layout.base_outputs.count * 4 <= usize::MAX,
    ensures
        res == spec_covered_from(outputs@, otx.layout.base_outputs, otx.witness@.base_output_masks, 0),
{
    let range = otx.layout.base_outputs;
    let ghost mask = otx.witness@.base_output_masks;
    let mut local_index: usize = 0;
    while local_index < range.count
        invariant
            range == otx.layout.base_outputs,
            range.count * 4 <= usize::MAX,
            mask == otx.witness@.base_output_masks,
            0 <= local_index <= range.count,
            spec_covered_from(outputs@, range, mask, 0) == spec_covered_from(outputs@, range, mask, local_index as int),
        decreases range.count - local_index,
    {
        if range.start > usize::MAX - local_index {
            return Err(CoreError::InvalidOtxLayout);
        }
        let tx_index = range.start + local_index;
        if contains_index(outputs, tx_index) {
            if otx.witness.includes_base_output_type(local_index)? {
                return Ok(true);
            }
        }
        local_index = local_index + 1;
    }
    Ok(false)
}

} // verus!
