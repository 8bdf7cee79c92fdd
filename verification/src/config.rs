//! The configuration, and the bindings it asks for.

use crate::common::Failure;
use crate::hotkey::combination_of;
use crate::hotkey::HotkeyType;
use crate::hotkey::KeyCombination;
use crate::hotkey::JOINER;
use crate::text::tokens_of;
use crate::text::views;
use vstd::prelude::*;
use vstd::string::*;

verus! {

/// The configuration as it is read at startup.
#[derive(Clone, Debug)]
pub struct Config {
    pub hotkey: String,
    pub auto_start: bool,
    /// The combinations, one per binding.
    pub hotkeys: Vec<String>,
    /// The commands, in the order of `hotkeys`.
    pub commands: Vec<String>,
}

impl Default for Config {
    fn default() -> (c: Config)
        ensures
            c.hotkey@ == "CTRL+ALT+W"@,
            !c.auto_start,
            views(c.hotkeys@) == seq!["1"@, "2"@, "3"@],
            views(c.commands@) == seq!["1"@, "2"@, "3"@],
    {
        let mut hotkeys: Vec<String> = Vec::new();
        hotkeys.push(String::from_str("1"));
        hotkeys.push(String::from_str("2"));
        hotkeys.push(String::from_str("3"));
        let mut commands: Vec<String> = Vec::new();
        commands.push(String::from_str("1"));
        commands.push(String::from_str("2"));
        commands.push(String::from_str("3"));
        assert(views(hotkeys@) =~= seq!["1"@, "2"@, "3"@]);
        assert(views(commands@) =~= seq!["1"@, "2"@, "3"@]);
        Config { hotkey: String::from_str("CTRL+ALT+W"), auto_start: false, hotkeys, commands }
    }
}

/// One configured binding, parsed: the combination, the slot it fires, and
/// the command that goes with it.
#[derive(Clone, Debug, PartialEq, Eq)]
pub struct Binding {
    pub combination: KeyCombination,
    pub slot: HotkeyType,
    pub command: String,
}

/// What the text of a combination parses to.
pub open spec fn parse_outcome(text: Seq<char>) -> Result<crate::hotkey::CombinationView, Failure> {
    combination_of(tokens_of(text, JOINER))
}

impl Config {
    /// Parses every configured combination, in order, and pairs it with its
    /// command; every binding fires the main slot. The first combination
    /// that does not parse decides the failure, which comes with the place
    /// of that combination, so that no listener need be started for a
    /// configuration that is broken anywhere.
    pub fn bindings(&self) -> (r: Result<Vec<Binding>, (usize, Failure)>)
        requires
            self.hotkeys@.len() <= self.commands@.len(),
        ensures
            match r {
                Ok(list) => {
                    &&& list@.len() == self.hotkeys@.len()
                    &&& forall|i: int|
                        0 <= i < list@.len() ==> {
                            &&& parse_outcome(self.hotkeys@[i]@) == Ok::<
                                crate::hotkey::CombinationView,
                                Failure,
                            >((#[trigger] list@[i]).combination@)
                            &&& list@[i].combination.wf()
                            &&& list@[i].slot == HotkeyType::Main
                            &&& list@[i].command == self.commands@[i]
                        }
                },
                Err((k, e)) => {
                    &&& k < self.hotkeys@.len()
                    &&& parse_outcome(self.hotkeys@[k as int]@) == Err::<
                        crate::hotkey::CombinationView,
                        Failure,
                    >(e)
                    &&& forall|j: int| 0 <= j < k ==> parse_outcome(#[trigger] self.hotkeys@[j]@) is Ok
                },
            },
    {
        let mut list: Vec<Binding> = Vec::new();
        let mut i: usize = 0;
        while i < self.hotkeys.len()
            invariant
                i <= self.hotkeys@.len() <= self.commands@.len(),
                list@.len() == i,
                forall|j: int|
                    0 <= j < i ==> {
                        &&& parse_outcome(self.hotkeys@[j]@) == Ok::<
                            crate::hotkey::CombinationView,
                            Failure,
                        >((#[trigger] list@[j]).combination@)
                        &&& list@[j].combination.wf()
                        &&& list@[j].slot == HotkeyType::Main
                        &&& list@[j].command == self.commands@[j]
                    },
                forall|j: int| 0 <= j < i ==> parse_outcome(#[trigger] self.hotkeys@[j]@) is Ok,
            decreases self.hotkeys@.len() - i,
        {
            match KeyCombination::parse(self.hotkeys[i].as_str()) {
                Ok(combination) => {
                    list.push(
                        Binding {
                            combination,
                            slot: HotkeyType::Main,
                            command: self.commands[i].clone(),
                        },
                    );
                },
                Err(e) => {
                    assert(parse_outcome(self.hotkeys@[i as int]@) == Err::<
                        crate::hotkey::CombinationView,
                        Failure,
                    >(e));
                    return Err((i, e));
                },
            }
            i += 1;
        }
        Ok(list)
    }
}

} // verus!
