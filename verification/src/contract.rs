//! The operations of the contract.
//!
//! Each operation takes the persistent state and the address table of the
//! call, and either succeeds, saying which instructions are to be sent, or
//! fails and leaves the state exactly as it was.

use vstd::prelude::*;
use crate::address::HumanAddr;
use crate::api::Api;
use crate::error::{Error, Item};
use crate::msg::{
    HandleMsg, HandleResponse, InitMsg, InitResponse, Instruction, QueryAnswer, QueryMsg,
    Snip20Msg, Uint128,
};
use crate::royalties::{
    canonicalized, humanized, lemma_accepted_iff_exact, RoyaltyInfo, StoredRoyaltyInfo, Table,
};
use crate::state::{Config, State, Storage};

verus! {

/// The size of the blocks to which outgoing instructions are padded.
pub const BLOCK_SIZE: usize = 256;

/// What an operation works on: the persistent state and the address
/// conversions known for the call.
#[derive(Debug)]
pub struct Extern {
    pub storage: Storage,
    pub api: Api,
}

/// Who sent the message that is being handled.
#[derive(Debug)]
pub struct MessageInfo {
    pub sender: HumanAddr,
}

/// The circumstances of a call.
#[derive(Debug)]
pub struct Env {
    pub message: MessageInfo,
    /// The code hash of this contract, which token contracts need to call
    /// it back.
    pub contract_code_hash: String,
}

/// What an operation comes to: the state it leaves and the instructions it
/// asks to send, or the reason why it fails.
pub type Outcome = Result<(State, Seq<Instruction>), Error>;

/// Whether a call that went from `before` to `after` and returned `result`
/// did what `outcome` says: on success the state and the instructions are
/// those of the outcome; on failure the error is that of the outcome and
/// nothing has changed. Either way the address table is untouched and the
/// state keeps its invariant.
pub open spec fn achieves(
    before: Extern,
    after: Extern,
    result: Result<Seq<Instruction>, Error>,
    outcome: Outcome,
) -> bool {
    &&& after.api == before.api
    &&& after.storage.wf()
    &&& match outcome {
        Ok((state, instructions)) => result == Ok::<Seq<Instruction>, Error>(instructions)
            && after.storage@ == state,
        Err(e) => result == Err::<Seq<Instruction>, Error>(e) && after == before,
    }
}

/// The instructions of a setup result.
pub open spec fn launched(result: Result<InitResponse, Error>) -> Result<Seq<Instruction>, Error> {
    match result {
        Ok(response) => Ok(response@),
        Err(e) => Err(e),
    }
}

/// The instructions of a handle result.
pub open spec fn sent(result: Result<HandleResponse, Error>) -> Result<Seq<Instruction>, Error> {
    match result {
        Ok(response) => Ok(response@),
        Err(e) => Err(e),
    }
}

/// Whether `sender` may run an admin-only operation: the contract must be
/// set up, and the sender's canonical address must be the admin's.
pub open spec fn authorized(state: State, api: Api, sender: Seq<char>) -> Result<(), Error> {
    match state.admin {
        None => Err(Error::NotFound(Item::Config)),
        Some(admin) => match api.canonical(sender) {
            None => Err(Error::InvalidAddress),
            Some(raw) => if raw == admin {
                Ok(())
            } else {
                Err(Error::Unauthorized)
            },
        },
    }
}

/// The form in which a submitted table is stored, or the reason why it is
/// rejected. Validation comes first, address conversion second.
pub open spec fn accepted(table: Table<Seq<char>>, api: Api) -> Result<Table<Seq<u8>>, Error> {
    match table.check() {
        Err(e) => Err(e),
        Ok(()) => match canonicalized(table, api) {
            None => Err(Error::InvalidAddress),
            Some(stored) => Ok(stored),
        },
    }
}

/// Every table that is accepted for storage has rates that add up to
/// exactly 100%, and it lists the same rates in the same order as the table
/// that was submitted.
pub proof fn lemma_accepted_is_exact(table: Table<Seq<char>>, api: Api)
    requires
        accepted(table, api) is Ok,
    ensures
        accepted(table, api)->Ok_0.exact(),
        accepted(table, api)->Ok_0.rates() == table.rates(),
        table.exact(),
{
    lemma_accepted_iff_exact(table);
    assert(accepted(table, api)->Ok_0.rates() =~= table.rates());
}

/// What storing a distribution table comes to. A submitted table is
/// validated and stored in canonical form; without one, the default is
/// stored as it is; without either, the stored table is removed.
pub open spec fn stored(
    state: State,
    api: Api,
    royalty_info: Option<Table<Seq<char>>>,
    default: Option<Table<Seq<u8>>>,
) -> Result<State, Error> {
    match royalty_info {
        Some(table) => match accepted(table, api) {
            Ok(canonical) => Ok(state.with_distribution(Some(canonical))),
            Err(e) => Err(e),
        },
        None => Ok(state.with_distribution(default)),
    }
}

/// Verifies that a submitted distribution table is well formed and, if so,
/// stores it in place of the current one. Without a submitted table the
/// default is stored unchecked, and without a default either the current
/// table is removed.
pub fn store_dist_info(
    storage: &mut Storage,
    api: &Api,
    royalty_info: Option<&RoyaltyInfo>,
    default: Option<&StoredRoyaltyInfo>,
) -> (r: Result<(), Error>)
    requires
        old(storage).wf(),
        default matches Some(d) ==> d@.exact(),
    ensures
        final(storage).wf(),
        match stored(
            old(storage)@,
            *api,
            match royalty_info {
                Some(info) => Some(info@),
                None => None,
            },
            match default {
                Some(d) => Some(d@),
                None => None,
            },
        ) {
            Ok(state) => r is Ok && final(storage)@ == state,
            Err(e) => r == Err::<(), Error>(e) && *final(storage) == *old(storage),
        },
{
    if let Some(royal_inf) = royalty_info {
        match royal_inf.validate() {
            Ok(()) => {},
            Err(e) => {
                return Err(e);
            },
        }
        let stored = match royal_inf.to_stored(api) {
            Ok(stored) => stored,
            Err(e) => {
                return Err(e);
            },
        };
        proof {
            lemma_accepted_is_exact(royal_inf@, *api);
        }
        storage.save_distribution(stored);
        Ok(())
    } else if let Some(def) = default {
        storage.save_distribution(def.clone());
        Ok(())
    } else {
        storage.remove_distribution();
        Ok(())
    }
}

/// Checks that the sender of the message is the admin.
fn check_admin(deps: &Extern, env: &Env) -> (r: Result<(), Error>)
    ensures
        r == authorized(deps.storage@, deps.api, env.message.sender@),
{
    let config = match deps.storage.load_config() {
        Ok(config) => config,
        Err(e) => {
            return Err(e);
        },
    };
    let sender_raw = match deps.api.canonical_address(&env.message.sender) {
        Ok(raw) => raw,
        Err(e) => {
            return Err(e);
        },
    };
    if config.admin.same(&sender_raw) {
        Ok(())
    } else {
        Err(Error::Unauthorized)
    }
}

/// What setting the contract up comes to. Setup happens once: it puts the
/// admin in charge, stores the distribution table, registers the first
/// token contract and asks that contract to report incoming funds.
pub open spec fn initialized(state: State, api: Api, env: Env, msg: InitMsg) -> Outcome {
    if state.active() {
        Err(Error::AlreadyInitialized)
    } else {
        match api.canonical(msg.admin@) {
            None => Err(Error::InvalidAddress),
            Some(admin) => match accepted(msg.dist_info@, api) {
                Err(e) => Err(e),
                Ok(table) => Ok(
                    (
                        state.with_distribution(Some(table)).with_admin(admin).registered(
                            msg.sscrt_addr@,
                            msg.sscrt_hash@,
                        ),
                        seq![
                            Instruction::RegisterReceive {
                                code_hash: env.contract_code_hash@,
                                callback_code_hash: msg.sscrt_hash@,
                                contract_addr: msg.sscrt_addr@,
                            },
                        ],
                    ),
                ),
            },
        }
    }
}

/// Sets the contract up.
pub fn init(deps: &mut Extern, env: Env, msg: InitMsg) -> (r: Result<InitResponse, Error>)
    requires
        old(deps).storage.wf(),
    ensures
        achieves(
            *old(deps),
            *final(deps),
            launched(r),
            initialized(old(deps).storage@, old(deps).api, env, msg),
        ),
        r is Ok ==> final(deps).storage@.active(),
{
    if deps.storage.config().is_some() {
        return Err(Error::AlreadyInitialized);
    }
    let config = Config {
        admin: match deps.api.canonical_address(&msg.admin) {
            Ok(admin) => admin,
            Err(e) => {
                return Err(e);
            },
        },
    };
    match store_dist_info(&mut deps.storage, &deps.api, Some(&msg.dist_info), None) {
        Ok(()) => {},
        Err(e) => {
            return Err(e);
        },
    }
    deps.storage.save_config(config);
    deps.storage.register(msg.sscrt_addr.clone(), msg.sscrt_hash.clone());
    let messages = vec![
        Snip20Msg::RegisterReceive {
            code_hash: env.contract_code_hash,
            callback_code_hash: msg.sscrt_hash,
            contract_addr: msg.sscrt_addr,
        },
    ];
    let response = InitResponse { messages };
    assert(response@ =~= initialized(old(deps).storage@, old(deps).api, env, msg)->Ok_0.1);
    Ok(response)
}

/// Whether every recipient of a stored table has a written form.
pub open spec fn payable(table: Table<Seq<u8>>, api: Api) -> bool {
    forall|i: int| 0 <= i < table.shares.len() ==> api.human(#[trigger] table.shares[i].recipient) is Some
}

/// The transfers that split `amount` according to `table`: one per share,
/// in table order, each addressed to the token contract `token`.
pub open spec fn transfers(
    table: Table<Seq<u8>>,
    api: Api,
    amount: u128,
    token: Seq<char>,
    code_hash: Seq<char>,
) -> Seq<Instruction> {
    Seq::new(
        table.shares.len(),
        |i: int|
            Instruction::Transfer {
                recipient: api.human(table.shares[i].recipient).unwrap(),
                amount: table.payouts(amount)[i],
                callback_code_hash: code_hash,
                contract_addr: token,
            },
    )
}

/// What comes of `amount` arriving from the token contract `sender`: the
/// transfers to send, or the reason why nothing is forwarded.
pub open spec fn forwarded(state: State, api: Api, sender: Seq<char>, amount: u128) -> Result<
    Seq<Instruction>,
    Error,
> {
    match state.token(sender) {
        None => Err(Error::NotRegistered),
        Some(code_hash) => match state.distribution {
            None => Err(Error::NotFound(Item::Distribution)),
            Some(table) => if payable(table, api) {
                Ok(transfers(table, api, amount, sender, code_hash))
            } else {
                Err(Error::InvalidAddress)
            },
        },
    }
}

/// Splits `amount`, which arrived from the token contract that sent the
/// message, among the recipients of the stored distribution table. Funds
/// from a token contract that is not registered are not forwarded. The
/// state is never changed.
pub fn forward_funds(deps: &mut Extern, env: Env, amount: Uint128) -> (r: Result<
    HandleResponse,
    Error,
>)
    requires
        old(deps).storage.wf(),
    ensures
        *final(deps) == *old(deps),
        sent(r) == forwarded(old(deps).storage@, old(deps).api, env.message.sender@, amount.0),
{
    let snip20_address = env.message.sender;
    let callback_code_hash = match deps.storage.lookup(&snip20_address) {
        Some(hash) => hash.clone(),
        None => {
            return Err(Error::NotRegistered);
        },
    };
    let royalty_list = match deps.storage.load_distribution() {
        Ok(table) => table,
        Err(e) => {
            return Err(e);
        },
    };
    let shown = match royalty_list.to_human(&deps.api, false) {
        Ok(shown) => shown,
        Err(e) => {
            return Err(e);
        },
    };
    let recipients = &shown.royalties;
    let amounts = royalty_list.split(amount.0);
    let ghost expected = transfers(
        royalty_list@,
        deps.api,
        amount.0,
        snip20_address@,
        callback_code_hash@,
    );
    proof {
        assert(shown@.shares.len() == expected.len());
        assert forall|j: int| 0 <= j < expected.len() implies (#[trigger] recipients@[j]).recipient
            is Some && recipients@[j].recipient->Some_0@ == expected[j]->Transfer_recipient by {
            assert(shown@.shares[j] == recipients@[j]@);
        }
    }
    let mut msg_list: Vec<Snip20Msg> = Vec::new();
    let mut i: usize = 0;
    while i < recipients.len()
        invariant
            i <= recipients.len(),
            recipients.len() == expected.len(),
            amounts.len() == expected.len(),
            forall|j: int|
                0 <= j < expected.len() ==> #[trigger] expected[j] == (Instruction::Transfer {
                    recipient: recipients@[j].recipient->Some_0@,
                    amount: amounts@[j] as nat,
                    callback_code_hash: callback_code_hash@,
                    contract_addr: snip20_address@,
                }),
            forall|j: int| 0 <= j < recipients.len() ==> (#[trigger] recipients@[j]).recipient is Some,
            msg_list@.len() == i,
            forall|j: int| 0 <= j < i ==> (#[trigger] msg_list@[j])@ == expected[j],
        decreases recipients.len() - i,
    {
        let recipient = match &recipients[i].recipient {
            Some(human) => human.clone(),
            None => vstd::pervasive::unreached(),
        };
        msg_list.push(
            Snip20Msg::Transfer {
                recipient,
                amount: Uint128(amounts[i]),
                callback_code_hash: callback_code_hash.clone(),
                contract_addr: snip20_address.clone(),
            },
        );
        i += 1;
    }
    let response = HandleResponse { messages: msg_list };
    assert(response@ =~= expected);
    Ok(response)
}

/// Transfers come out in table order: a successful forwarding asks for one
/// transfer per share of the stored table, the `i`-th transfer pays the
/// `i`-th share's recipient that share's part of the amount, and all are
/// addressed to the token contract the funds came from, under the code hash
/// it is registered with.
pub proof fn lemma_transfers_in_table_order(
    state: State,
    api: Api,
    sender: Seq<char>,
    amount: u128,
    i: int,
)
    requires
        forwarded(state, api, sender, amount) is Ok,
        0 <= i < state.distribution->Some_0.shares.len(),
    ensures
        forwarded(state, api, sender, amount)->Ok_0.len()
            == state.distribution->Some_0.shares.len(),
        forwarded(state, api, sender, amount)->Ok_0[i] == (Instruction::Transfer {
            recipient: api.human(state.distribution->Some_0.shares[i].recipient)->Some_0,
            amount: state.distribution->Some_0.payouts(amount)[i],
            callback_code_hash: state.token(sender)->Some_0,
            contract_addr: sender,
        }),
{
}

/// What funds arriving from the sender of the message come to: the state
/// stays as it is, and the transfers of `forwarded` are sent.
pub open spec fn received(state: State, api: Api, env: Env, amount: Uint128) -> Outcome {
    match forwarded(state, api, env.message.sender@, amount.0) {
        Ok(instructions) => Ok((state, instructions)),
        Err(e) => Err(e),
    }
}

/// Handles the report of a token contract that funds have arrived: the
/// funds are forwarded. Who sent them to the token contract, and with what
/// message, plays no part.
pub fn receive(
    deps: &mut Extern,
    env: Env,
    _sender: HumanAddr,
    _from: HumanAddr,
    amount: Uint128,
    _msg: Option<Vec<u8>>,
) -> (r: Result<HandleResponse, Error>)
    requires
        old(deps).storage.wf(),
    ensures
        *final(deps) == *old(deps),
        achieves(
            *old(deps),
            *final(deps),
            sent(r),
            received(old(deps).storage@, old(deps).api, env, amount),
        ),
{
    forward_funds(deps, env, amount)
}

/// Funds from a token contract that is not registered are refused and
/// nothing changes, whatever else the state holds.
pub proof fn lemma_unknown_sender_refused(
    before: Extern,
    after: Extern,
    env: Env,
    amount: Uint128,
    result: Result<Seq<Instruction>, Error>,
)
    requires
        before.storage@.token(env.message.sender@) is None,
        achieves(before, after, result, received(before.storage@, before.api, env, amount)),
    ensures
        result == Err::<Seq<Instruction>, Error>(Error::NotRegistered),
        after == before,
{
}

/// What registering a token contract comes to: for the admin, the
/// contract is registered under the given code hash and is asked to report
/// incoming funds.
pub open spec fn token_registered(
    state: State,
    api: Api,
    env: Env,
    snip20_addr: Seq<char>,
    snip20_hash: Seq<char>,
) -> Outcome {
    match authorized(state, api, env.message.sender@) {
        Err(e) => Err(e),
        Ok(()) => Ok(
            (
                state.registered(snip20_addr, snip20_hash),
                seq![
                    Instruction::RegisterReceive {
                        code_hash: env.contract_code_hash@,
                        callback_code_hash: snip20_hash,
                        contract_addr: snip20_addr,
                    },
                ],
            ),
        ),
    }
}

/// Registers a token contract with its callback code hash, so that funds
/// arriving from it are forwarded, and asks it to report incoming funds.
/// Admin only. An earlier registration of the contract is overwritten.
pub fn register_token(
    deps: &mut Extern,
    env: Env,
    snip20_addr: HumanAddr,
    snip20_hash: String,
) -> (r: Result<HandleResponse, Error>)
    requires
        old(deps).storage.wf(),
    ensures
        achieves(
            *old(deps),
            *final(deps),
            sent(r),
            token_registered(old(deps).storage@, old(deps).api, env, snip20_addr@, snip20_hash@),
        ),
{
    match check_admin(deps, &env) {
        Ok(()) => {},
        Err(e) => {
            return Err(e);
        },
    }
    deps.storage.register(snip20_addr.clone(), snip20_hash.clone());
    let messages = vec![
        Snip20Msg::RegisterReceive {
            code_hash: env.contract_code_hash,
            callback_code_hash: snip20_hash,
            contract_addr: snip20_addr,
        },
    ];
    let response = HandleResponse { messages };
    assert(response@ =~= token_registered(
        old(deps).storage@,
        old(deps).api,
        env,
        snip20_addr@,
        snip20_hash@,
    )->Ok_0.1);
    Ok(response)
}

/// What replacing the distribution table comes to: for the admin, the
/// submitted table is validated and stored in canonical form.
pub open spec fn distribution_changed(
    state: State,
    api: Api,
    env: Env,
    dist_info: Table<Seq<char>>,
) -> Outcome {
    match authorized(state, api, env.message.sender@) {
        Err(e) => Err(e),
        Ok(()) => match accepted(dist_info, api) {
            Err(e) => Err(e),
            Ok(table) => Ok((state.with_distribution(Some(table)), Seq::empty())),
        },
    }
}

/// Replaces the distribution table by a submitted one, if that one is well
/// formed. Admin only.
pub fn change_dao(deps: &mut Extern, env: Env, dist_info: RoyaltyInfo) -> (r: Result<
    HandleResponse,
    Error,
>)
    requires
        old(deps).storage.wf(),
    ensures
        achieves(
            *old(deps),
            *final(deps),
            sent(r),
            distribution_changed(old(deps).storage@, old(deps).api, env, dist_info@),
        ),
{
    match check_admin(deps, &env) {
        Ok(()) => {},
        Err(e) => {
            return Err(e);
        },
    }
    match store_dist_info(&mut deps.storage, &deps.api, Some(&dist_info), None) {
        Ok(()) => {},
        Err(e) => {
            return Err(e);
        },
    }
    let response = HandleResponse { messages: Vec::new() };
    assert(response@ =~= Seq::<Instruction>::empty());
    Ok(response)
}

/// What handing over the admin role comes to: for the admin, the new
/// address takes its place.
pub open spec fn admin_changed(state: State, api: Api, env: Env, admin_addr: Seq<char>) -> Outcome {
    match authorized(state, api, env.message.sender@) {
        Err(e) => Err(e),
        Ok(()) => match api.canonical(admin_addr) {
            None => Err(Error::InvalidAddress),
            Some(admin) => Ok((state.with_admin(admin), Seq::empty())),
        },
    }
}

/// Hands the admin role to another address. Admin only.
pub fn change_admin(deps: &mut Extern, env: Env, admin_addr: HumanAddr) -> (r: Result<
    HandleResponse,
    Error,
>)
    requires
        old(deps).storage.wf(),
    ensures
        achieves(
            *old(deps),
            *final(deps),
            sent(r),
            admin_changed(old(deps).storage@, old(deps).api, env, admin_addr@),
        ),
{
    match check_admin(deps, &env) {
        Ok(()) => {},
        Err(e) => {
            return Err(e);
        },
    }
    let admin = match deps.api.canonical_address(&admin_addr) {
        Ok(admin) => admin,
        Err(e) => {
            return Err(e);
        },
    };
    deps.storage.save_config(Config { admin });
    let response = HandleResponse { messages: Vec::new() };
    assert(response@ =~= Seq::<Instruction>::empty());
    Ok(response)
}

/// What handling a message comes to.
pub open spec fn handled(state: State, api: Api, env: Env, msg: HandleMsg) -> Outcome {
    match msg {
        HandleMsg::Receive { sender, from, amount, msg } => received(state, api, env, amount),
        HandleMsg::RegisterToken { snip20_addr, snip20_hash } => token_registered(
            state,
            api,
            env,
            snip20_addr@,
            snip20_hash@,
        ),
        HandleMsg::ChangeDistribution { dist_info } => distribution_changed(
            state,
            api,
            env,
            dist_info@,
        ),
        HandleMsg::ChangeAdmin { admin_addr } => admin_changed(state, api, env, admin_addr@),
    }
}

/// Handles a message.
pub fn handle(deps: &mut Extern, env: Env, msg: HandleMsg) -> (r: Result<HandleResponse, Error>)
    requires
        old(deps).storage.wf(),
    ensures
        achieves(
            *old(deps),
            *final(deps),
            sent(r),
            handled(old(deps).storage@, old(deps).api, env, msg),
        ),
{
    match msg {
        HandleMsg::Receive { sender, from, amount, msg } => receive(
            deps,
            env,
            sender,
            from,
            amount,
            msg,
        ),
        HandleMsg::RegisterToken { snip20_addr, snip20_hash } => register_token(
            deps,
            env,
            snip20_addr,
            snip20_hash,
        ),
        HandleMsg::ChangeDistribution { dist_info } => change_dao(deps, env, dist_info),
        HandleMsg::ChangeAdmin { admin_addr } => change_admin(deps, env, admin_addr),
    }
}

/// The stored distribution table as it is shown: with written addresses,
/// or nothing if no table is stored.
pub open spec fn shown_distribution(state: State, api: Api) -> Result<
    Option<Table<Option<Seq<char>>>>,
    Error,
> {
    match state.distribution {
        None => Ok(None),
        Some(table) => match humanized(table, api, false) {
            Some(shown) => Ok(Some(shown)),
            None => Err(Error::InvalidAddress),
        },
    }
}

/// Answers a question.
pub fn query(deps: &Extern, msg: QueryMsg) -> (r: Result<QueryAnswer, Error>)
    ensures
        match shown_distribution(deps.storage@, deps.api) {
            Ok(shown) => r matches Ok(answer) && answer@ == shown,
            Err(e) => r == Err::<QueryAnswer, Error>(e),
        },
{
    match msg {
        QueryMsg::QueryDist {  } => query_distribution(deps),
    }
}

/// Shows the stored distribution table.
pub fn query_distribution(deps: &Extern) -> (r: Result<QueryAnswer, Error>)
    ensures
        match shown_distribution(deps.storage@, deps.api) {
            Ok(shown) => r matches Ok(answer) && answer@ == shown,
            Err(e) => r == Err::<QueryAnswer, Error>(e),
        },
{
    let royalty_info = match deps.storage.distribution() {
        None => None,
        Some(stored) => match stored.to_human(&deps.api, false) {
            Ok(shown) => Some(shown),
            Err(e) => {
                return Err(e);
            },
        },
    };
    Ok(QueryAnswer::RoyaltyInfo { royalty_info })
}

/// Whether a message asks for an operation that only the admin may run.
pub open spec fn admin_only(msg: HandleMsg) -> bool {
    msg is RegisterToken || msg is ChangeDistribution || msg is ChangeAdmin
}

/// An admin-only operation asked for by anyone whose canonical address is
/// not the admin's is refused as unauthorized and nothing changes: neither
/// the admin, nor the distribution table, nor the directory.
pub proof fn lemma_admin_only_refused(
    before: Extern,
    after: Extern,
    env: Env,
    msg: HandleMsg,
    result: Result<Seq<Instruction>, Error>,
)
    requires
        admin_only(msg),
        before.storage@.admin is Some,
        before.api.canonical(env.message.sender@) is Some,
        before.api.canonical(env.message.sender@) != before.storage@.admin,
        achieves(before, after, result, handled(before.storage@, before.api, env, msg)),
    ensures
        result == Err::<Seq<Instruction>, Error>(Error::Unauthorized),
        after == before,
        after.storage@.admin == before.storage@.admin,
        after.storage@.distribution == before.storage@.distribution,
        after.storage@.tokens == before.storage@.tokens,
{
}

/// Before setup nothing is handled: while there is no admin and no token
/// contract is registered, every message is refused.
pub proof fn lemma_nothing_before_setup(state: State, api: Api, env: Env, msg: HandleMsg)
    requires
        !state.active(),
        state.tokens == Map::<Seq<char>, Seq<char>>::empty(),
    ensures
        handled(state, api, env, msg) is Err,
{
}

/// Setup cannot be undone: once there is an admin, no message, whether it
/// is handled or refused, leaves the contract without one, and setting up
/// again is refused.
pub proof fn lemma_setup_is_final(
    before: Extern,
    after: Extern,
    env: Env,
    msg: HandleMsg,
    init_msg: InitMsg,
    result: Result<Seq<Instruction>, Error>,
)
    requires
        before.storage@.active(),
        achieves(before, after, result, handled(before.storage@, before.api, env, msg)),
    ensures
        after.storage@.active(),
        initialized(before.storage@, before.api, env, init_msg) == Err::<
            (State, Seq<Instruction>),
            Error,
        >(Error::AlreadyInitialized),
{
}

} // verus!
