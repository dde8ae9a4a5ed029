//! Actions: what an acknowledgement asks the proxy to do with a variable.
//!
//! On the wire: one byte for the kind of action, one for the number of its
//! arguments, one for the variable's scope, the variable's name as a string
//! and, where the action sets the variable, the value.

use super::buf::{get_u8, max_written, put_u8, remaining, unread, written};
use super::error::{
    err_view, ActionError, ActionErrorView, Error, ErrorView, ListOfActionsError,
    ListOfActionsErrorView,
};
use super::text::{
    lemma_parse_string_used, lemma_string_round_trip, parse_string, spec_parse_string,
    string_bytes, write_string,
};
use super::typed_data::{
    lemma_parse_typed_data_used, lemma_typed_data_round_trip, parse_typed_data,
    spec_parse_typed_data, typed_data_bytes, write_typed_data, TypedData, TypedDataView,
};
use bytes::BytesMut;
use std::io::Cursor;
use vstd::prelude::*;
use vstd::utf8::encode_utf8;

verus! {

#[allow(non_camel_case_types)]
#[derive(Debug, Clone, Copy, PartialEq, Eq, Structural)]
pub enum ActionVarScope {
    PROCESS,
    SESSION,
    TRANSACTION,
    REQUEST,
    RESPONSE,
}

impl ActionVarScope {
    /// The byte that stands for the scope.
    pub open spec fn spec_code(self) -> u8 {
        match self {
            ActionVarScope::PROCESS => 0,
            ActionVarScope::SESSION => 1,
            ActionVarScope::TRANSACTION => 2,
            ActionVarScope::REQUEST => 3,
            ActionVarScope::RESPONSE => 4,
        }
    }

    /// The scope that a byte stands for, if any.
    pub open spec fn spec_from_code(code: u8) -> Option<ActionVarScope> {
        if code == 0 {
            Some(ActionVarScope::PROCESS)
        } else if code == 1 {
            Some(ActionVarScope::SESSION)
        } else if code == 2 {
            Some(ActionVarScope::TRANSACTION)
        } else if code == 3 {
            Some(ActionVarScope::REQUEST)
        } else if code == 4 {
            Some(ActionVarScope::RESPONSE)
        } else {
            None
        }
    }

    /// The byte that stands for the scope.
    pub fn code(self) -> (c: u8)
        ensures
            c == self.spec_code(),
            ActionVarScope::spec_from_code(c) == Some(self),
    {
        match self {
            ActionVarScope::PROCESS => 0,
            ActionVarScope::SESSION => 1,
            ActionVarScope::TRANSACTION => 2,
            ActionVarScope::REQUEST => 3,
            ActionVarScope::RESPONSE => 4,
        }
    }

    /// The scope that a byte stands for: `None` for a byte above 4.
    pub fn from_code(code: u8) -> (s: Option<ActionVarScope>)
        ensures
            s == ActionVarScope::spec_from_code(code),
    {
        match code {
            0 => Some(ActionVarScope::PROCESS),
            1 => Some(ActionVarScope::SESSION),
            2 => Some(ActionVarScope::TRANSACTION),
            3 => Some(ActionVarScope::REQUEST),
            4 => Some(ActionVarScope::RESPONSE),
            _ => None,
        }
    }
}

#[allow(non_camel_case_types)]
#[derive(Debug, Clone, Copy, PartialEq, Eq, Structural)]
pub enum ActionType {
    SET_VAR,
    UNSET_VAR,
}

impl ActionType {
    /// The byte that stands for the kind of action.
    pub open spec fn spec_code(self) -> u8 {
        match self {
            ActionType::SET_VAR => 1,
            ActionType::UNSET_VAR => 2,
        }
    }

    /// The kind of action that a byte stands for, if any.
    pub open spec fn spec_from_code(code: u8) -> Option<ActionType> {
        if code == 1 {
            Some(ActionType::SET_VAR)
        } else if code == 2 {
            Some(ActionType::UNSET_VAR)
        } else {
            None
        }
    }

    /// The number of arguments that an action of this kind has.
    pub open spec fn spec_args(self) -> u8 {
        match self {
            ActionType::SET_VAR => 3,
            ActionType::UNSET_VAR => 2,
        }
    }

    /// The byte that stands for the kind of action.
    pub fn code(self) -> (c: u8)
        ensures
            c == self.spec_code(),
            ActionType::spec_from_code(c) == Some(self),
    {
        match self {
            ActionType::SET_VAR => 1,
            ActionType::UNSET_VAR => 2,
        }
    }

    /// The kind of action that a byte stands for: `None` for a byte other
    /// than 1 and 2.
    pub fn from_code(code: u8) -> (t: Option<ActionType>)
        ensures
            t == ActionType::spec_from_code(code),
    {
        match code {
            1 => Some(ActionType::SET_VAR),
            2 => Some(ActionType::UNSET_VAR),
            _ => None,
        }
    }
}

impl From<ActionVarScope> for u8 {
    fn from(v: ActionVarScope) -> (c: u8) {
        v.code()
    }
}

impl vstd::std_specs::convert::FromSpecImpl<ActionVarScope> for u8 {
    open spec fn obeys_from_spec() -> bool {
        true
    }

    open spec fn from_spec(v: ActionVarScope) -> u8 {
        v.spec_code()
    }
}

impl TryFrom<u8> for ActionVarScope {
    /// The byte that stands for nothing.
    type Error = u8;

    fn try_from(code: u8) -> (r: Result<ActionVarScope, u8>) {
        match ActionVarScope::from_code(code) {
            Some(v) => Ok(v),
            None => Err(code),
        }
    }
}

impl vstd::std_specs::convert::TryFromSpecImpl<u8> for ActionVarScope {
    open spec fn obeys_try_from_spec() -> bool {
        true
    }

    open spec fn try_from_spec(code: u8) -> Result<ActionVarScope, u8> {
        match ActionVarScope::spec_from_code(code) {
            Some(v) => Ok(v),
            None => Err(code),
        }
    }
}

impl From<ActionType> for u8 {
    fn from(v: ActionType) -> (c: u8) {
        v.code()
    }
}

impl vstd::std_specs::convert::FromSpecImpl<ActionType> for u8 {
    open spec fn obeys_from_spec() -> bool {
        true
    }

    open spec fn from_spec(v: ActionType) -> u8 {
        v.spec_code()
    }
}

impl TryFrom<u8> for ActionType {
    /// The byte that stands for nothing.
    type Error = u8;

    fn try_from(code: u8) -> (r: Result<ActionType, u8>) {
        match ActionType::from_code(code) {
            Some(v) => Ok(v),
            None => Err(code),
        }
    }
}

impl vstd::std_specs::convert::TryFromSpecImpl<u8> for ActionType {
    open spec fn obeys_try_from_spec() -> bool {
        true
    }

    open spec fn try_from_spec(code: u8) -> Result<ActionType, u8> {
        match ActionType::spec_from_code(code) {
            Some(v) => Ok(v),
            None => Err(code),
        }
    }
}

#[derive(Debug, Clone, PartialEq)]
pub enum Action {
    SetVar { scope: ActionVarScope, name: String, value: TypedData },
    UnsetVar { scope: ActionVarScope, name: String },
}

pub enum ActionView {
    SetVar { scope: ActionVarScope, name: Seq<char>, value: TypedDataView },
    UnsetVar { scope: ActionVarScope, name: Seq<char> },
}

impl View for Action {
    type V = ActionView;

    open spec fn view(&self) -> ActionView {
        match *self {
            Action::SetVar { scope, name, value } => ActionView::SetVar {
                scope,
                name: name@,
                value: value@,
            },
            Action::UnsetVar { scope, name } => ActionView::UnsetVar { scope, name: name@ },
        }
    }
}

impl DeepView for Action {
    type V = ActionView;

    open spec fn deep_view(&self) -> ActionView {
        self@
    }
}

impl ActionView {
    /// The variable's name.
    pub open spec fn name(self) -> Seq<char> {
        match self {
            ActionView::SetVar { name, .. } => name,
            ActionView::UnsetVar { name, .. } => name,
        }
    }

    /// What holds of the view of every action in memory.
    pub open spec fn wf(self) -> bool {
        &&& encode_utf8(self.name()).len() <= usize::MAX
        &&& self matches ActionView::SetVar { value, .. } ==> value.wf()
    }

    /// Whether the action can be encoded: it can unless it sets a variable
    /// to a `BINARY`.
    pub open spec fn encodable(self) -> bool {
        self matches ActionView::SetVar { value, .. } ==> value.encodable()
    }
}

/// The encoding of an action. Where the value cannot be encoded, the bytes
/// end with the value's tag.
pub open spec fn action_bytes(a: ActionView) -> Seq<u8> {
    match a {
        ActionView::SetVar { scope, name, value } => seq![1u8, 3u8, scope.spec_code()]
            + string_bytes(name) + typed_data_bytes(value),
        ActionView::UnsetVar { scope, name } => seq![2u8, 2u8, scope.spec_code()] + string_bytes(
            name,
        ),
    }
}

/// The encoding of a list of actions, one after the other. It ends with the
/// first action that cannot be encoded, if there is one.
pub open spec fn actions_bytes(l: Seq<ActionView>) -> Seq<u8>
    decreases l.len(),
{
    if l.len() == 0 {
        Seq::empty()
    } else if !l[0].encodable() {
        action_bytes(l[0])
    } else {
        action_bytes(l[0]) + actions_bytes(l.skip(1))
    }
}

/// Whether every action of a list can be encoded.
pub open spec fn actions_encodable(l: Seq<ActionView>) -> bool {
    forall|i: int| 0 <= i < l.len() ==> (#[trigger] l[i]).encodable()
}

/// What decoding makes of the first byte of an action: its kind.
pub open spec fn spec_parse_action_type(s: Seq<u8>) -> (Result<ActionType, ActionErrorView>, nat) {
    if s.len() == 0 {
        (Err(ActionErrorView::InsufficientBytes), 0)
    } else {
        match ActionType::spec_from_code(s[0]) {
            None => (Err(ActionErrorView::InvalidActionType(s[0])), 1),
            Some(t) => (Ok(t), 1),
        }
    }
}

/// What decoding makes of the byte that holds a variable's scope.
pub open spec fn spec_parse_action_scope(s: Seq<u8>) -> (
    Result<ActionVarScope, ActionErrorView>,
    nat,
) {
    if s.len() == 0 {
        (Err(ActionErrorView::InsufficientBytes), 0)
    } else {
        match ActionVarScope::spec_from_code(s[0]) {
            None => (Err(ActionErrorView::InvalidActionScope(s[0])), 1),
            Some(scope) => (Ok(scope), 1),
        }
    }
}

/// What decoding makes of what follows the number of arguments: the scope,
/// the name and, for `SET_VAR`, the value.
pub open spec fn spec_parse_action_body(kind: ActionType, s: Seq<u8>) -> (
    Result<ActionView, ActionErrorView>,
    nat,
) {
    let scope = spec_parse_action_scope(s);
    match scope.0 {
        Err(e) => (Err(e), scope.1),
        Ok(scope) => {
            let name = spec_parse_string(s.skip(1));
            match name.0 {
                Err(e) => match kind {
                    ActionType::SET_VAR => (
                        Err(ActionErrorView::InvalidSetVarActionVarName(e)),
                        1 + name.1,
                    ),
                    ActionType::UNSET_VAR => (
                        Err(ActionErrorView::InvalidUnsetVarActionVarName(e)),
                        1 + name.1,
                    ),
                },
                Ok(name_text) => match kind {
                    ActionType::UNSET_VAR => (
                        Ok(ActionView::UnsetVar { scope, name: name_text }),
                        1 + name.1,
                    ),
                    ActionType::SET_VAR => {
                        let value = spec_parse_typed_data(s.skip(1 + name.1 as int));
                        match value.0 {
                            Err(e) => (
                                Err(ActionErrorView::InvalidSetVarActionVarValue(e)),
                                1 + name.1 + value.1,
                            ),
                            Ok(v) => (
                                Ok(ActionView::SetVar { scope, name: name_text, value: v }),
                                1 + name.1 + value.1,
                            ),
                        }
                    },
                },
            }
        },
    }
}

/// What decoding makes of the bytes `s`: the action or the error, and how
/// many bytes it reads. A number of arguments other than the one that the
/// kind of action has is answered with `InvalidNumberOfArgs`, which holds
/// `SET_VAR`, the number found and the number wanted.
pub open spec fn spec_parse_action(s: Seq<u8>) -> (Result<ActionView, ActionErrorView>, nat) {
    let kind = spec_parse_action_type(s);
    match kind.0 {
        Err(e) => (Err(e), kind.1),
        Ok(kind) => if s.len() < 2 {
            (Err(ActionErrorView::InsufficientBytes), 1)
        } else if s[1] != kind.spec_args() {
            (
                Err(
                    ActionErrorView::InvalidNumberOfArgs(
                        ActionType::SET_VAR,
                        s[1],
                        kind.spec_args(),
                    ),
                ),
                2,
            )
        } else {
            let body = spec_parse_action_body(kind, s.skip(2));
            (body.0, 2 + body.1)
        },
    }
}

/// Reads actions until the input ends or one of them does not decode.
/// `acc` holds the actions read so far.
pub open spec fn spec_parse_actions_from(s: Seq<u8>, acc: Seq<ActionView>) -> (
    Result<Seq<ActionView>, ListOfActionsErrorView>,
    nat,
)
    decreases s.len(),
{
    if s.len() == 0 {
        (Ok(acc), 0)
    } else {
        let first = spec_parse_action(s);
        match first.0 {
            Err(e) => (Err(ListOfActionsErrorView::InvalidAction(e)), first.1),
            Ok(a) => if 0 < first.1 <= s.len() {
                let rest = spec_parse_actions_from(s.skip(first.1 as int), acc.push(a));
                (rest.0, first.1 + rest.1)
            } else {
                (Ok(acc), 0)
            },
        }
    }
}

/// What decoding makes of the bytes `s` as a list of actions that fills
/// them: the actions in order, or the error of the first that does not
/// decode.
pub open spec fn spec_parse_list_of_actions(s: Seq<u8>) -> (
    Result<Seq<ActionView>, ListOfActionsErrorView>,
    nat,
) {
    spec_parse_actions_from(s, Seq::empty())
}

/// Decoding an action never reads more than there is, and reads at least
/// one byte where it succeeds.
pub proof fn lemma_parse_action_used(s: Seq<u8>)
    ensures
        spec_parse_action(s).1 <= s.len(),
        spec_parse_action(s).0 is Ok ==> spec_parse_action(s).1 >= 1,
{
    if s.len() >= 3 {
        lemma_parse_string_used(s.skip(2).skip(1));
        lemma_parse_typed_data_used(
            s.skip(2).skip(1 + spec_parse_string(s.skip(2).skip(1)).1 as int),
        );
    }
}

/// Decoding a list never reads more than there is, and reads all of it
/// where it succeeds.
pub proof fn lemma_parse_actions_used(s: Seq<u8>, acc: Seq<ActionView>)
    ensures
        spec_parse_actions_from(s, acc).1 <= s.len(),
        spec_parse_actions_from(s, acc).0 is Ok ==> spec_parse_actions_from(s, acc).1 == s.len(),
    decreases s.len(),
{
    if s.len() > 0 {
        lemma_parse_action_used(s);
        let first = spec_parse_action(s);
        if first.0 is Ok {
            lemma_parse_actions_used(s.skip(first.1 as int), acc.push(first.0->Ok_0));
        }
    }
}

/// The encoding of what follows the number of arguments.
pub open spec fn action_body_bytes(a: ActionView) -> Seq<u8> {
    match a {
        ActionView::SetVar { scope, name, value } => seq![scope.spec_code()] + string_bytes(name)
            + typed_data_bytes(value),
        ActionView::UnsetVar { scope, name } => seq![scope.spec_code()] + string_bytes(name),
    }
}

/// The kind of an action.
pub open spec fn action_kind(a: ActionView) -> ActionType {
    match a {
        ActionView::SetVar { .. } => ActionType::SET_VAR,
        ActionView::UnsetVar { .. } => ActionType::UNSET_VAR,
    }
}

proof fn lemma_action_body_round_trip(a: ActionView, rest: Seq<u8>)
    requires
        a.wf(),
        a.encodable(),
    ensures
        spec_parse_action_body(action_kind(a), action_body_bytes(a) + rest) == (
            Ok::<ActionView, ActionErrorView>(a),
            action_body_bytes(a).len(),
        ),
{
    let s = action_body_bytes(a) + rest;
    let name = a.name();
    let text = string_bytes(name);
    match a {
        ActionView::SetVar { scope, name: _, value } => {
            let data = typed_data_bytes(value);
            assert(s[0] == scope.spec_code());
            assert(s.skip(1) =~= text + (data + rest));
            assert(spec_parse_string(s.skip(1)) == (
                Ok::<Seq<char>, super::error::StringErrorView>(name),
                text.len(),
            )) by {
                lemma_string_round_trip(name, data + rest);
            }
            assert(s.skip(1 + text.len() as int) =~= data + rest);
            assert(spec_parse_typed_data(s.skip(1 + text.len() as int)) == (
                Ok::<TypedDataView, super::error::TypedDataErrorView>(value),
                data.len(),
            )) by {
                lemma_typed_data_round_trip(value, rest);
            }
            assert(action_body_bytes(a).len() == 1 + text.len() + data.len());
        },
        ActionView::UnsetVar { scope, name: _ } => {
            assert(s[0] == scope.spec_code());
            assert(s.skip(1) =~= text + rest);
            assert(spec_parse_string(s.skip(1)) == (
                Ok::<Seq<char>, super::error::StringErrorView>(name),
                text.len(),
            )) by {
                lemma_string_round_trip(name, rest);
            }
            assert(action_body_bytes(a).len() == 1 + text.len());
        },
    }
}

/// Decoding undoes encoding, whatever follows the encoded bytes, and reads
/// exactly the bytes that encoding wrote.
pub proof fn lemma_action_round_trip(a: ActionView, rest: Seq<u8>)
    requires
        a.wf(),
        a.encodable(),
    ensures
        spec_parse_action(action_bytes(a) + rest) == (
            Ok::<ActionView, ActionErrorView>(a),
            action_bytes(a).len(),
        ),
{
    let s = action_bytes(a) + rest;
    let kind = action_kind(a);
    assert(action_bytes(a) =~= seq![kind.spec_code(), kind.spec_args()] + action_body_bytes(a));
    assert(s[0] == kind.spec_code());
    assert(s[1] == kind.spec_args());
    assert(s.skip(2) =~= action_body_bytes(a) + rest);
    lemma_action_body_round_trip(a, rest);
}

/// Decoding a list undoes encoding it, and keeps the actions in order.
pub proof fn lemma_actions_round_trip(l: Seq<ActionView>, acc: Seq<ActionView>)
    requires
        forall|i: int| 0 <= i < l.len() ==> (#[trigger] l[i]).wf() && l[i].encodable(),
    ensures
        spec_parse_actions_from(actions_bytes(l), acc) == (
            Ok::<Seq<ActionView>, ListOfActionsErrorView>(acc + l),
            actions_bytes(l).len(),
        ),
    decreases l.len(),
{
    if l.len() == 0 {
        assert(acc + l =~= acc);
    } else {
        let tail = actions_bytes(l.skip(1));
        assert(l[0].wf() && l[0].encodable());
        lemma_action_round_trip(l[0], tail);
        assert(actions_bytes(l).skip(action_bytes(l[0]).len() as int) =~= tail);
        assert forall|i: int| 0 <= i < l.skip(1).len() implies (#[trigger] l.skip(1)[i]).wf()
            && l.skip(1)[i].encodable() by {
            assert(l.skip(1)[i] == l[i + 1]);
        }
        lemma_actions_round_trip(l.skip(1), acc.push(l[0]));
        assert(acc.push(l[0]) + l.skip(1) =~= acc + l);
    }
}

/// Decodes the kind of an action from the front of `src`.
///
/// Fails with `InsufficientBytes` on an empty input and with
/// `InvalidActionType` on a byte that stands for no kind.
pub fn parse_action_type(src: &mut Cursor<&[u8]>) -> (r: Result<ActionType, ActionError>)
    ensures
        err_view(r) == spec_parse_action_type(unread(*old(src))).0,
        unread(*final(src)) == unread(*old(src)).skip(
            spec_parse_action_type(unread(*old(src))).1 as int,
        ),
{
    if remaining(src) < 1 {
        assert(unread(*src).skip(0) =~= unread(*src));
        return Err(ActionError::InsufficientBytes);
    }
    let raw: u8 = get_u8(src);
    match ActionType::from_code(raw) {
        Some(t) => Ok(t),
        None => Err(ActionError::InvalidActionType(raw)),
    }
}

/// Decodes the scope of a variable from the front of `src`.
///
/// Fails with `InsufficientBytes` on an empty input and with
/// `InvalidActionScope` on a byte that stands for no scope.
pub fn parse_action_scope(src: &mut Cursor<&[u8]>) -> (r: Result<ActionVarScope, ActionError>)
    ensures
        err_view(r) == spec_parse_action_scope(unread(*old(src))).0,
        unread(*final(src)) == unread(*old(src)).skip(
            spec_parse_action_scope(unread(*old(src))).1 as int,
        ),
{
    if remaining(src) < 1 {
        assert(unread(*src).skip(0) =~= unread(*src));
        return Err(ActionError::InsufficientBytes);
    }
    let raw: u8 = get_u8(src);
    match ActionVarScope::from_code(raw) {
        Some(s) => Ok(s),
        None => Err(ActionError::InvalidActionScope(raw)),
    }
}

/// Decodes one action from the front of `src`.
pub fn parse_action(src: &mut Cursor<&[u8]>) -> (r: Result<Action, ActionError>)
    ensures
        super::error::result_view(r) == spec_parse_action(unread(*old(src))).0,
        unread(*final(src)) == unread(*old(src)).skip(
            spec_parse_action(unread(*old(src))).1 as int,
        ),
{
    let ghost s0 = unread(*src);
    let kind = match parse_action_type(src) {
        Ok(kind) => kind,
        Err(e) => {
            return Err(e);
        },
    };
    if remaining(src) < 1 {
        return Err(ActionError::InsufficientBytes);
    }
    let nb_args: u8 = get_u8(src);
    assert(s0.skip(1).skip(1) =~= s0.skip(2));
    let ghost body = s0.skip(2);
    match kind {
        ActionType::SET_VAR => {
            if nb_args != 3 {
                return Err(ActionError::InvalidNumberOfArgs(ActionType::SET_VAR, nb_args, 3));
            }
        },
        ActionType::UNSET_VAR => {
            if nb_args != 2 {
                return Err(ActionError::InvalidNumberOfArgs(ActionType::SET_VAR, nb_args, 2));
            }
        },
    }
    let scope = match parse_action_scope(src) {
        Ok(scope) => scope,
        Err(e) => {
            assert(body.skip(spec_parse_action_scope(body).1 as int) =~= s0.skip(
                2 + spec_parse_action_scope(body).1 as int,
            ));
            return Err(e);
        },
    };
    let ghost n1: int = spec_parse_string(body.skip(1)).1 as int;
    proof {
        lemma_parse_string_used(body.skip(1));
        assert(body.skip(1).skip(n1) =~= s0.skip(2 + (1 + n1)));
        assert(body.skip(1).skip(n1) =~= body.skip(1 + n1));
    }
    let name = parse_string(src);
    match kind {
        ActionType::SET_VAR => {
            let name = match name {
                Ok(name) => name,
                Err(e) => {
                    return Err(ActionError::InvalidSetVarActionVarName(e));
                },
            };
            let ghost n2: int = spec_parse_typed_data(body.skip(1 + n1)).1 as int;
            proof {
                lemma_parse_typed_data_used(body.skip(1 + n1));
                assert(body.skip(1 + n1).skip(n2) =~= s0.skip(2 + (1 + n1 + n2)));
            }
            match parse_typed_data(src) {
                Ok(value) => Ok(Action::SetVar { scope, name, value }),
                Err(e) => Err(ActionError::InvalidSetVarActionVarValue(e)),
            }
        },
        ActionType::UNSET_VAR => {
            match name {
                Ok(name) => Ok(Action::UnsetVar { scope, name }),
                Err(e) => Err(ActionError::InvalidUnsetVarActionVarName(e)),
            }
        },
    }
}

/// Decodes actions from `src` until it is exhausted.
///
/// Fails with `InvalidAction` at the first action that does not decode.
pub fn parse_list_of_actions(src: &mut Cursor<&[u8]>) -> (r: Result<
    Vec<Action>,
    ListOfActionsError,
>)
    ensures
        match r {
            Ok(l) => spec_parse_list_of_actions(unread(*old(src))).0 == Ok::<
                Seq<ActionView>,
                ListOfActionsErrorView,
            >(l.deep_view()),
            Err(e) => spec_parse_list_of_actions(unread(*old(src))).0 == Err::<
                Seq<ActionView>,
                ListOfActionsErrorView,
            >(e@),
        },
        unread(*final(src)) == unread(*old(src)).skip(
            spec_parse_list_of_actions(unread(*old(src))).1 as int,
        ),
{
    let ghost s0 = unread(*src);
    let ghost whole = spec_parse_list_of_actions(s0);
    let ghost mut used: int = 0;
    let mut actions: Vec<Action> = Vec::new();
    assert(actions.deep_view() =~= Seq::<ActionView>::empty());
    assert(s0.skip(0) =~= s0);
    while remaining(src) > 0
        invariant
            s0 == unread(*old(src)),
            whole == spec_parse_list_of_actions(s0),
            0 <= used <= s0.len(),
            unread(*src) == s0.skip(used),
            whole.0 == spec_parse_actions_from(unread(*src), actions.deep_view()).0,
            whole.1 == spec_parse_actions_from(unread(*src), actions.deep_view()).1 + used,
        decreases s0.len() - used,
    {
        let ghost cur = unread(*src);
        let ghost before = actions.deep_view();
        proof {
            lemma_parse_action_used(cur);
        }
        let ghost n: int = spec_parse_action(cur).1 as int;
        assert(cur.skip(n) =~= s0.skip(used + n));
        let action = match parse_action(src) {
            Ok(a) => a,
            Err(e) => {
                return Err(ListOfActionsError::InvalidAction(e));
            },
        };
        let ghost a = action@;
        actions.push(action);
        proof {
            assert(actions.deep_view() =~= before.push(a));
            used = used + n;
        }
    }
    Ok(actions)
}

/// Appends the encoding of an action to `dst`.
///
/// Fails with `NotSupported` where the action sets a variable to a
/// `BINARY`, and on nothing else.
pub fn write_action(dst: &mut BytesMut, action: &Action) -> (r: Result<(), Error>)
    requires
        written(*old(dst)).len() + action_bytes(action@).len() <= max_written(),
    ensures
        r is Ok <==> action@.encodable(),
        r matches Err(e) ==> e@ == ErrorView::NotSupported,
        written(*final(dst)) == written(*old(dst)) + action_bytes(action@),
{
    let ghost w0 = written(*dst);
    match action {
        Action::SetVar { name, value, scope } => {
            put_u8(dst, ActionType::SET_VAR.code());
            put_u8(dst, 3);
            put_u8(dst, scope.code());
            let _ = write_string(dst, name);
            let r = write_typed_data(dst, value);
            assert(written(*dst) =~= w0 + action_bytes(action@));
            r
        },
        Action::UnsetVar { name, scope } => {
            put_u8(dst, ActionType::UNSET_VAR.code());
            put_u8(dst, 2);
            put_u8(dst, scope.code());
            let r = write_string(dst, name);
            assert(written(*dst) =~= w0 + action_bytes(action@));
            r
        },
    }
}

/// Appends the encodings of the actions to `dst`, in order.
///
/// Fails with `NotSupported` at the first action that cannot be encoded,
/// and writes nothing after it.
pub fn write_list_of_actions(dst: &mut BytesMut, actions: &Vec<Action>) -> (r: Result<(), Error>)
    requires
        written(*old(dst)).len() + actions_bytes(actions.deep_view()).len() <= max_written(),
    ensures
        r is Ok <==> actions_encodable(actions.deep_view()),
        r matches Err(e) ==> e@ == ErrorView::NotSupported,
        written(*final(dst)) == written(*old(dst)) + actions_bytes(actions.deep_view()),
{
    let ghost w0 = written(*dst);
    let ghost l = actions.deep_view();
    let mut i: usize = 0;
    assert(l.skip(0) =~= l);
    while i < actions.len()
        invariant
            i <= actions.len(),
            w0 == written(*old(dst)),
            l == actions.deep_view(),
            l.len() == actions.len(),
            w0.len() + actions_bytes(l).len() <= max_written(),
            written(*dst) + actions_bytes(l.skip(i as int)) == w0 + actions_bytes(l),
            forall|k: int| 0 <= k < i ==> (#[trigger] l[k]).encodable(),
        decreases actions.len() - i,
    {
        let ghost rest = l.skip(i as int);
        let ghost before = written(*dst);
        proof {
            assert(rest[0] == actions[i as int]@);
            assert(rest.skip(1) =~= l.skip(i as int + 1));
            assert((before + actions_bytes(rest)).len() == (w0 + actions_bytes(l)).len());
        }
        match write_action(dst, &actions[i]) {
            Ok(_) => {
                assert(before + action_bytes(rest[0]) + actions_bytes(rest.skip(1)) =~= before
                    + actions_bytes(rest));
            },
            Err(e) => {
                assert(!l[i as int].encodable());
                assert(before + action_bytes(rest[0]) =~= before + actions_bytes(rest));
                return Err(e);
            },
        }
        i = i + 1;
    }
    assert(written(*dst) =~= w0 + actions_bytes(l));
    Ok(())
}

} // verus!
