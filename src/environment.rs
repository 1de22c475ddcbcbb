use vstd::prelude::*;

use crate::error::Error;
use crate::link::LinkEvent;
use crate::string_map::StringMap;

verus! {

/// The fixed variables that every script receives.
#[derive(Clone, Copy, Debug, PartialEq, Eq, Structural)]
pub enum ScriptEnvironment {
    /// `NWD_DEVICE_IFACE`: the interface name.
    DeviceIface,
    /// `NWD_BROKER_ACTION`: the state that triggered the script.
    BrokerAction,
    /// `NWD_JSON`: the link's description as the service returned it.
    Json,
}

/// The variable name of each fixed variable.
pub open spec fn script_env_name(v: ScriptEnvironment) -> Seq<char> {
    match v {
        ScriptEnvironment::DeviceIface => "NWD_DEVICE_IFACE"@,
        ScriptEnvironment::BrokerAction => "NWD_BROKER_ACTION"@,
        ScriptEnvironment::Json => "NWD_JSON"@,
    }
}

/// The fixed variables have distinct names, so a name gives back its variable.
pub proof fn lemma_script_env_names_distinct(a: ScriptEnvironment, b: ScriptEnvironment)
    ensures
        script_env_name(a) == script_env_name(b) ==> a == b,
{
    reveal_strlit("NWD_DEVICE_IFACE");
    reveal_strlit("NWD_BROKER_ACTION");
    reveal_strlit("NWD_JSON");
    assert(script_env_name(ScriptEnvironment::DeviceIface).len() == 16);
    assert(script_env_name(ScriptEnvironment::BrokerAction).len() == 17);
    assert(script_env_name(ScriptEnvironment::Json).len() == 8);
}

impl ScriptEnvironment {
    /// The variable's name.
    pub fn name(&self) -> (r: String)
        ensures
            r@ == script_env_name(*self),
    {
        match self {
            ScriptEnvironment::DeviceIface => "NWD_DEVICE_IFACE".to_string(),
            ScriptEnvironment::BrokerAction => "NWD_BROKER_ACTION".to_string(),
            ScriptEnvironment::Json => "NWD_JSON".to_string(),
        }
    }

    /// The fixed variable called `name`, if there is one.
    pub fn from_name(name: &str) -> (r: Option<ScriptEnvironment>)
        ensures
            r matches Some(v) ==> script_env_name(v) == name@,
            r is None ==> forall|v: ScriptEnvironment| script_env_name(v) != name@,
    {
        let s = name.to_string();
        let candidates = [
            ScriptEnvironment::DeviceIface,
            ScriptEnvironment::BrokerAction,
            ScriptEnvironment::Json,
        ];
        let mut i: usize = 0;
        while i < 3
            invariant
                0 <= i <= 3,
                s@ == name@,
                candidates@ == seq![
                    ScriptEnvironment::DeviceIface,
                    ScriptEnvironment::BrokerAction,
                    ScriptEnvironment::Json,
                ],
                forall|j: int| 0 <= j < i ==> script_env_name(candidates@[j]) != name@,
            decreases 3 - i,
        {
            let v = candidates[i];
            if v.name() == s {
                return Some(v);
            }
            i = i + 1;
        }
        proof {
            assert forall|v: ScriptEnvironment| script_env_name(v) != name@ by {
                match v {
                    ScriptEnvironment::DeviceIface => assert(candidates@[0] == v),
                    ScriptEnvironment::BrokerAction => assert(candidates@[1] == v),
                    ScriptEnvironment::Json => assert(candidates@[2] == v),
                }
            }
        }
        None
    }
}

/// The variables that describe one event to a script.
pub struct Environments {
    envs: StringMap,
}

impl View for Environments {
    type V = Map<Seq<char>, Seq<char>>;

    closed spec fn view(&self) -> Map<Seq<char>, Seq<char>> {
        self.envs@
    }
}

impl Environments {
    pub closed spec fn wf(&self) -> bool {
        self.envs.wf()
    }

    pub fn new() -> (r: Environments)
        ensures
            r.wf(),
            r@ == Map::<Seq<char>, Seq<char>>::empty(),
    {
        Environments { envs: StringMap::new() }
    }

    /// The variables as a table.
    pub fn pack(&self) -> (r: &StringMap)
        requires
            self.wf(),
        ensures
            r.wf(),
            r@ == self@,
    {
        &self.envs
    }

    /// Sets the variable `name` to `value`; returns `self` for chaining.
    pub fn add(&mut self, name: ScriptEnvironment, value: String) -> (r: &mut Environments)
        requires
            old(self).wf(),
        ensures
            r.wf(),
            r@ == old(self)@.insert(script_env_name(name), value@),
            *final(self) == *final(r),
    {
        self.envs.insert(name.name(), value);
        self
    }

    /// Sets the three fixed variables from `event`: its interface, its state
    /// and its raw description.
    pub fn pack_from(&mut self, event: &LinkEvent) -> (r: Result<(), Error>)
        requires
            old(self).wf(),
        ensures
            r is Ok,
            final(self).wf(),
            final(self)@ == old(self)@.insert(
                script_env_name(ScriptEnvironment::DeviceIface),
                event.iface@,
            ).insert(script_env_name(ScriptEnvironment::BrokerAction), event.state@).insert(
                script_env_name(ScriptEnvironment::Json),
                event.link_details_json@,
            ),
    {
        self.add(ScriptEnvironment::DeviceIface, event.iface.clone()).add(
            ScriptEnvironment::BrokerAction,
            event.state.clone(),
        ).add(ScriptEnvironment::Json, event.link_details_json.clone());
        Ok(())
    }
}

} // verus!
