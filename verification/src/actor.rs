//! Variables that dialogue scripts share, and the command that sets them.
use vstd::prelude::*;
use crate::payload::components::{VariableValue, VariableValueView};
use crate::text::{concat_text, same_text};
use crate::text_map::TextMap;

verus! {

/// The functions that dialogue scripts can call, by name.
#[derive(Debug)]
pub struct FunctionLibrary(pub Vec<String>);

impl FunctionLibrary {
    /// A library with the functions that read variables: `get_string`,
    /// `get_number` and `get_bool`.
    pub fn new() -> (library: FunctionLibrary)
        ensures
            library.0@.len() == 3,
            library.0@[0]@ == "get_string"@,
            library.0@[1]@ == "get_number"@,
            library.0@[2]@ == "get_bool"@,
    {
        let mut names: Vec<String> = Vec::new();
        names.push("get_string".to_owned());
        names.push("get_number".to_owned());
        names.push("get_bool".to_owned());
        FunctionLibrary(names)
    }

    /// Adds a function to the library.
    pub fn add_function(&mut self, name: &str)
        ensures
            final(self).0@.len() == old(self).0@.len() + 1,
            final(self).0@.drop_last() == old(self).0@,
            final(self).0@.last()@ == name@,
    {
        let ghost before = self.0@;
        self.0.push(name.to_owned());
        proof {
            assert(self.0@.drop_last() =~= before);
        }
    }
}

/// The key under which the variable `var_name` of `instance_name` is kept:
/// both names with a dot between them.
pub open spec fn spec_variable_key(instance_name: Seq<char>, var_name: Seq<char>) -> Seq<char> {
    instance_name + seq!['.'] + var_name
}

/// Makes the key of a variable.
fn variable_key(instance_name: &str, var_name: &str) -> (key: String)
    ensures
        key@ == spec_variable_key(instance_name@, var_name@),
{
    let mut key = concat_text(instance_name, ".");
    proof {
        reveal_strlit(".");
        assert("."@ =~= seq!['.']);
    }
    key.append(var_name);
    key
}

/// Variable storage. Variables are kept per instance; those shared by all
/// are kept under the instance `global`.
#[derive(Debug)]
pub struct DirworldVariableStorage(pub TextMap<VariableValue>);

impl DirworldVariableStorage {
    /// The invariant: no key occurs twice.
    pub open spec fn wf(&self) -> bool {
        self.0.wf()
    }

    /// The value of the variable `var_name` of `instance_name`, where it is
    /// set.
    pub open spec fn spec_get(&self, instance_name: Seq<char>, var_name: Seq<char>) -> Option<
        VariableValueView,
    > {
        let key = spec_variable_key(instance_name, var_name);
        if self.0@.contains_key(key) {
            Some(self.0@[key]@)
        } else {
            None
        }
    }

    /// A storage without variables.
    pub fn new() -> (storage: DirworldVariableStorage)
        ensures
            storage.wf(),
            storage.0@ == Map::<Seq<char>, VariableValue>::empty(),
    {
        DirworldVariableStorage(TextMap::new())
    }

    /// Set value of instance variable (use "global" for global).
    pub fn set(&mut self, instance_name: &str, var_name: &str, value: VariableValue)
        requires
            old(self).wf(),
        ensures
            final(self).wf(),
            final(self).0@ == old(self).0@.insert(
                spec_variable_key(instance_name@, var_name@),
                value,
            ),
    {
        let _ = self.0.insert(variable_key(instance_name, var_name), value);
    }

    /// Get value of instance variable (use "global" for global).
    pub fn get(&self, instance_name: &str, var_name: &str) -> (value: Option<VariableValue>)
        requires
            self.wf(),
        ensures
            match value {
                Some(found) => self.spec_get(instance_name@, var_name@) == Some(found@),
                None => self.spec_get(instance_name@, var_name@).is_none(),
            },
    {
        let key = variable_key(instance_name, var_name);
        match self.0.get(key.as_str()) {
            Some(found) => Some(found.clone()),
            None => None,
        }
    }
}

/// The text of a variable; empty where the variable is not set or holds no
/// text.
pub fn get_string(storage: &DirworldVariableStorage, instance_name: &str, var_name: &str) -> (text:
    String)
    requires
        storage.wf(),
    ensures
        text@ == (match storage.spec_get(instance_name@, var_name@) {
            Some(VariableValueView::Text(found)) => found,
            _ => Seq::<char>::empty(),
        }),
{
    match storage.get(instance_name, var_name) {
        Some(VariableValue::Text(found)) => found,
        _ => String::new(),
    }
}

/// The number of a variable, as the bit pattern of a single precision
/// number; that of zero where the variable is not set or holds no number.
pub fn get_number(storage: &DirworldVariableStorage, instance_name: &str, var_name: &str) -> (bits:
    u32)
    requires
        storage.wf(),
    ensures
        bits == (match storage.spec_get(instance_name@, var_name@) {
            Some(VariableValueView::Number(found)) => found,
            _ => 0u32,
        }),
{
    match storage.get(instance_name, var_name) {
        Some(VariableValue::Number(found)) => found,
        _ => 0,
    }
}

/// The truth value of a variable; false where the variable is not set or
/// holds no truth value.
pub fn get_bool(storage: &DirworldVariableStorage, instance_name: &str, var_name: &str) -> (flag:
    bool)
    requires
        storage.wf(),
    ensures
        flag == (match storage.spec_get(instance_name@, var_name@) {
            Some(VariableValueView::Boolean(found)) => found,
            _ => false,
        }),
{
    match storage.get(instance_name, var_name) {
        Some(VariableValue::Boolean(found)) => found,
        _ => false,
    }
}

/// Whether a dialogue command sets a variable: it is named `set_var`.
pub open spec fn spec_is_set_command(name: Seq<char>) -> bool {
    name == "set_var"@
}

/// Whether the parameters of a `set_var` command can be used: there are
/// three of them, and the first two are texts.
pub open spec fn spec_can_set(parameters: Seq<VariableValue>) -> bool {
    parameters.len() == 3 && parameters[0] is Text && parameters[1] is Text
}

/// Handles a command that a dialogue issued. A command named `set_var` sets
/// the variable that its first two parameters name, an instance and a
/// variable, to its third; with other parameters it sets nothing. Tells
/// whether the dialogue is to go on at once, which is so for every
/// `set_var` command.
pub fn handle_variable_set_commands(
    storage: &mut DirworldVariableStorage,
    name: &str,
    parameters: &Vec<VariableValue>,
) -> (go_on: bool)
    requires
        old(storage).wf(),
    ensures
        final(storage).wf(),
        go_on == spec_is_set_command(name@),
        if spec_is_set_command(name@) && spec_can_set(parameters@) {
            final(storage).0@.dom() == old(storage).0@.dom().insert(
                spec_variable_key(parameters@[0]->Text_0@, parameters@[1]->Text_0@),
            ) && final(storage).0@[spec_variable_key(
                parameters@[0]->Text_0@,
                parameters@[1]->Text_0@,
            )]@ == parameters@[2]@ && forall|key: Seq<char>|
                key != spec_variable_key(parameters@[0]->Text_0@, parameters@[1]->Text_0@) && old(storage).0@.contains_key(key) ==> #[trigger] final(storage).0@[key] == old(storage).0@[key]
        } else {
            *final(storage) == *old(storage)
        },
{
    if !same_text(name, "set_var") {
        return false;
    }
    if parameters.len() != 3 {
        return true;
    }
    if let VariableValue::Text(instance_name) = &parameters[0] {
        if let VariableValue::Text(var_name) = &parameters[1] {
            let ghost before = storage.0@;
            storage.set(instance_name.as_str(), var_name.as_str(), parameters[2].clone());
            proof {
                assert(storage.0@.dom() =~= before.dom().insert(
                    spec_variable_key(instance_name@, var_name@),
                ));
            }
        }
    }
    true
}

} // verus!
