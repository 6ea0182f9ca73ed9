//! A program: its commands in order, and the table of its brackets.

use vstd::prelude::*;
use vstd::string::StringExecFns;
use crate::debug::{reports, BfError, ErrEvent, Event, OkEvent, Status};
use crate::text::{decimal, write_position};
use super::brackets::{
    lemma_fault_names_bracket, lemma_pairing_is_mutual, lemma_pairing_keeps_brackets, matched,
    nested, paired, partnered, positions, verdict, Bracket, BracketMap,
};
use super::commands::{BfCommand, BfToken};

verus! {

/// What a program holds: its commands in order, and the bracket at each
/// position that its table knows of.
pub struct ProgramView {
    pub commands: Seq<BfToken>,
    pub brackets: Map<usize, Bracket>,
}

/// The brackets among the first `bound` of `commands`, each at its position
/// and without a partner.
pub open spec fn marked_below(commands: Seq<BfToken>, bound: int) -> Map<usize, Bracket> {
    Map::new(
        |at: usize| at < bound && at < commands.len() && commands[at as int].command().bracket() is Some,
        |at: usize| commands[at as int].command().bracket()->0,
    )
}

/// The brackets among `commands`, each at its position and without a
/// partner.
pub open spec fn marked(commands: Seq<BfToken>) -> Map<usize, Bracket> {
    marked_below(commands, commands.len() as int)
}

/// The description of the fault found at the command `symbol` at `at`.
pub open spec fn unmatched(symbol: char, at: usize) -> Seq<char> {
    "Unmatched "@ + seq![symbol] + " at "@ + decimal(at as nat)
}

impl ProgramView {
    /// Whether the table speaks of the commands: every bracket stands at the
    /// position of a command, and so does its partner if it has one. The
    /// commands can be counted by the machine.
    pub open spec fn wf(self) -> bool {
        &&& self.commands.len() <= usize::MAX
        &&& forall|at: usize| #[trigger]
            self.brackets.contains_key(at) ==> at < self.commands.len() && (
            self.brackets[at].counterpart() matches Some(partner) ==> partner < self.commands.len())
    }

    /// The position of the partner of the bracket at `index`, if the table
    /// holds a bracket there that has one.
    pub open spec fn counterpart(self, index: usize) -> Option<usize> {
        if self.brackets.contains_key(index) {
            self.brackets[index].counterpart()
        } else {
            None
        }
    }

    /// Whether the loop command at `at` knows where to jump: the table names
    /// its partner, which is the other bracket and names it back, and `[`
    /// stands before its `]`.
    pub open spec fn resolved_at(self, at: usize) -> bool {
        let here = self.commands[at as int].command();
        &&& self.counterpart(at) matches Some(partner)
        &&& partner < self.commands.len()
        &&& self.counterpart(partner) == Some(at)
        &&& here == BfCommand::IfZero ==> at < partner && self.commands[partner as int].command()
            == BfCommand::IfNotZero
        &&& here == BfCommand::IfNotZero ==> partner < at && self.commands[partner as int].command()
            == BfCommand::IfZero
    }

    /// Whether every loop command of the program knows where to jump.
    pub open spec fn resolved(self) -> bool {
        forall|at: usize|
            at < self.commands.len() && (#[trigger] self.commands[at as int]).command().bracket() is Some
                ==> self.resolved_at(at)
    }
}

/// A program whose brackets could be paired knows every jump: where pairing
/// the brackets of `commands` finds no fault, every `[` has its `]` as
/// partner, further on in the program, and every `]` its `[`.
pub proof fn lemma_pairing_resolves(commands: Seq<BfToken>)
    requires
        commands.len() <= usize::MAX,
        verdict(marked(commands)) is Ok,
    ensures
        (ProgramView {
            commands,
            brackets: paired(marked(commands), positions(marked(commands))),
        }).resolved(),
{
    broadcast use Bracket::lemma_unpaired;

    let before = marked(commands);
    let after = paired(before, positions(before));
    let program = ProgramView { commands, brackets: after };
    lemma_pairing_is_mutual(before);
    lemma_pairing_keeps_brackets(before);
    assert forall|at: usize|
        at < commands.len() && (#[trigger] commands[at as int]).command().bracket() is Some implies program.resolved_at(
        at,
    ) by {
        assert(before.contains_key(at));
        assert(partnered(after, at));
        let partner = after[at].counterpart()->0;
        assert(before.contains_key(partner));
        assert(after[at].btype() == before[at].btype());
        assert(after[partner].btype() == before[partner].btype());
    }
}

/// A program.
#[derive(Debug)]
pub struct BfProgram {
    commands: Vec<BfToken>,
    bracket_map: BracketMap,
}

impl View for BfProgram {
    type V = ProgramView;

    closed spec fn view(&self) -> ProgramView {
        ProgramView { commands: self.commands@, brackets: self.bracket_map@ }
    }
}

impl Clone for BfProgram {
    fn clone(&self) -> (copy: Self)
        ensures
            copy@ == self@,
    {
        Self { commands: self.commands.clone(), bracket_map: self.bracket_map.clone() }
    }
}

impl BfProgram {
    /// A program without commands.
    pub fn new() -> (program: Self)
        ensures
            program@.commands == Seq::<BfToken>::empty(),
            program@.brackets == Map::<usize, Bracket>::empty(),
            program@.wf(),
    {
        Self { commands: Vec::new(), bracket_map: BracketMap::new() }
    }

    /// Adds `command` at the end of the program.
    pub fn push(&mut self, command: BfToken)
        ensures
            final(self)@.commands == old(self)@.commands.push(command),
            final(self)@.brackets == old(self)@.brackets,
            old(self)@.wf() ==> final(self)@.wf(),
    {
        self.commands.push(command);
        assert(self.commands@.len() == self.commands.len());
    }

    /// Fills the table with the brackets of the program, each at the
    /// position of its command and without a partner. What the table held
    /// before is dropped.
    pub fn populate_map(&mut self) -> (event: Event)
        ensures
            final(self)@.commands == old(self)@.commands,
            final(self)@.brackets == marked(old(self)@.commands),
            final(self)@.wf(),
            reports(event, "Populate bracket map: OK"@),
    {
        broadcast use Bracket::lemma_unpaired;

        let mut map: BracketMap = BracketMap::new();
        let mut location: usize = 0;
        assert(map@ =~= marked_below(self.commands@, 0));
        while location < self.commands.len()
            invariant
                location <= self.commands.len(),
                map@ == marked_below(self.commands@, location as int),
                *self == *old(self),
            decreases self.commands.len() - location,
        {
            match self.commands[location].command().bracket() {
                Some(bracket) => {
                    map.insert(bracket, location);
                },
                None => {},
            }
            assert(map@ =~= marked_below(self.commands@, location + 1));
            location += 1;
        }
        self.bracket_map = map;
        assert(self.commands@.len() == self.commands.len());
        Ok(OkEvent::Status(Status::new("Populate bracket map: OK")))
    }

    /// Gives every bracket of the table the position of its partner, as
    /// [`BracketMap::pair_up`] does. A fault leaves the table as it was and
    /// is reported as an error of the fault's kind, which names the command
    /// at fault and its position. Where the table held the brackets of the
    /// program and no fault was found, every loop command knows its jump
    /// from now on.
    pub fn calculate_map(&mut self) -> (event: Event)
        requires
            old(self)@.wf(),
        ensures
            final(self)@.commands == old(self)@.commands,
            final(self)@.wf(),
            event is Ok && old(self)@.brackets == marked(old(self)@.commands)
                ==> final(self)@.resolved(),
            match verdict(old(self)@.brackets) {
                Ok(_) => {
                    &&& final(self)@.brackets == paired(
                        old(self)@.brackets,
                        positions(old(self)@.brackets),
                    )
                    &&& matched(final(self)@.brackets)
                    &&& nested(final(self)@.brackets)
                    &&& reports(event, "Calculate bracket map: OK"@)
                },
                Err((kind, location)) => {
                    &&& final(self)@.brackets == old(self)@.brackets
                    &&& location < old(self)@.commands.len()
                    &&& event matches Err(ErrEvent::Error(error))
                    &&& error.kind() == kind
                    &&& error.spec_description() == unmatched(
                        old(self)@.commands[location as int].command().symbol(),
                        location,
                    )
                },
            },
    {
        proof {
            lemma_fault_names_bracket(self@.brackets);
            if verdict(self@.brackets) is Ok && self@.brackets == marked(self@.commands) {
                lemma_pairing_resolves(self@.commands);
            }
        }
        let result = self.bracket_map.pair_up();
        match result {
            Ok(_) => {
                proof {
                    let before = old(self)@.brackets;
                    let after = self@.brackets;
                    assert forall|at: usize| #[trigger] after.contains_key(at) implies at
                        < self@.commands.len() && (after[at].counterpart() matches Some(partner)
                        ==> partner < self@.commands.len()) by {
                        assert(before.contains_key(at));
                        assert(partnered(after, at));
                        assert(before.contains_key(after[at].counterpart()->0));
                    }
                }
                Ok(OkEvent::Status(Status::new("Calculate bracket map: OK")))
            },
            Err((kind, location)) => {
                let description = String::from_str("Unmatched ").concat(
                    self.commands[location].command().as_str(),
                ).concat(" at ").concat(write_position(location).as_str());
                Err(ErrEvent::Error(BfError::new(kind, description.as_str())))
            },
        }
    }

    /// Drops the commands and the brackets.
    pub fn clear(&mut self) -> (event: Event)
        ensures
            final(self)@.commands == Seq::<BfToken>::empty(),
            final(self)@.brackets == Map::<usize, Bracket>::empty(),
            final(self)@.wf(),
            reports(event, "Clear BfProgram: OK"@),
    {
        self.commands.clear();
        self.bracket_map = BracketMap::new();
        Ok(OkEvent::Status(Status::new("Clear BfProgram: OK")))
    }

    /// The command at `index`, if the program has one there.
    pub fn current_command(&self, index: usize) -> (token: Option<BfToken>)
        ensures
            token == if index < self@.commands.len() {
                Some(self@.commands[index as int])
            } else {
                None
            },
    {
        if index < self.commands.len() {
            Some(self.commands[index])
        } else {
            None
        }
    }

    /// The position of the partner of the bracket at `index`, if the table
    /// holds a bracket there that has one.
    pub fn get_counterpart(&self, index: usize) -> (counterpart: Option<usize>)
        ensures
            counterpart == self@.counterpart(index),
    {
        self.bracket_map.get_counterpart(index)
    }

    /// The commands in order.
    pub fn commands(&self) -> (commands: &Vec<BfToken>)
        ensures
            commands@ == self@.commands,
    {
        &self.commands
    }

    /// The table of brackets.
    pub fn bracket_map(&self) -> (table: &BracketMap)
        ensures
            table@ == self@.brackets,
    {
        &self.bracket_map
    }

    /// The number of commands.
    pub fn len(&self) -> (length: usize)
        ensures
            length == self@.commands.len(),
    {
        self.commands.len()
    }
}

} // verus!
