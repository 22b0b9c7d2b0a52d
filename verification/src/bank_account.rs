//! A bank account: an aggregate small enough to read at a glance, complete with its
//! commands, its events and the bytes its events are stored as.

use crate::aggregate::{Aggregate, Apply, Handle, State};
use crate::wire::{
    ascii, decimal_at, digits, holds_at, lemma_decimal_is_digits, lemma_digits_round_trip, literal,
    matches_at, parse_decimal, push_decimal,
};
use std::collections::BTreeMap;
use vstd::prelude::*;

verus! {

/// Why an account turns a command down.
#[derive(Debug, Clone, Copy, PartialEq, Eq, Structural)]
pub enum BankAccountError {
    AccountAlreadyOpened,
    AccountNotOpen,
    AmountIsZero,
    InsufficientBalance,
}

impl BankAccountError {
    /// The error in words.
    pub fn message(&self) -> (text: String)
        ensures
            text@ == match *self {
                BankAccountError::AccountAlreadyOpened => "account already opened"@,
                BankAccountError::AccountNotOpen => "account not open"@,
                BankAccountError::AmountIsZero => "cannot withdraw/deposit an amount of 0"@,
                BankAccountError::InsufficientBalance => "insufficient balance"@,
            },
    {
        match self {
            BankAccountError::AccountAlreadyOpened => "account already opened".to_owned(),
            BankAccountError::AccountNotOpen => "account not open".to_owned(),
            BankAccountError::AmountIsZero => "cannot withdraw/deposit an amount of 0".to_owned(),
            BankAccountError::InsufficientBalance => "insufficient balance".to_owned(),
        }
    }
}

/// An account: whether it was opened, and what it holds.
#[derive(Debug, Default)]
pub struct BankAccount {
    pub opened: bool,
    pub balance: i64,
}

/// What can be asked of an account.
pub enum BankAccountCommand {
    OpenAccount(OpenAccount),
    DepositFunds(DepositFunds),
    WithdrawFunds(WithdrawFunds),
}

/// Asks to open the account.
pub struct OpenAccount {}

/// Asks to pay `amount` in.
pub struct DepositFunds {
    pub amount: u32,
}

/// Asks to pay `amount` out.
pub struct WithdrawFunds {
    pub amount: u32,
}

/// What has happened to an account.
#[derive(Clone, Copy, Debug)]
pub enum BankAccountEvent {
    OpenedAccount(AccountOpened),
    DepositedFunds(FundsDeposited),
    WithdrewFunds(FundsWithdrawn),
}

/// The account was opened.
#[derive(Clone, Copy, Debug, Default)]
pub struct AccountOpened {}

/// `amount` was paid in.
#[derive(Clone, Copy, Debug, Default)]
pub struct FundsDeposited {
    pub amount: u32,
}

/// `amount` was paid out.
#[derive(Clone, Copy, Debug, Default)]
pub struct FundsWithdrawn {
    pub amount: u32,
}

impl Default for BankAccountEvent {
    fn default() -> (event: Self)
        ensures
            event == BankAccountEvent::OpenedAccount(AccountOpened {  }),
    {
        BankAccountEvent::OpenedAccount(AccountOpened {  })
    }
}

/// A balance with `amount` paid in. Balances wrap around at the ends of their range.
pub open spec fn credited(balance: i64, amount: u32) -> i64 {
    if balance + amount > i64::MAX {
        (balance + amount - 0x1_0000_0000_0000_0000) as i64
    } else {
        (balance + amount) as i64
    }
}

/// A balance with `amount` paid out. Balances wrap around at the ends of their range.
pub open spec fn debited(balance: i64, amount: u32) -> i64 {
    if balance - amount < i64::MIN {
        (balance - amount + 0x1_0000_0000_0000_0000) as i64
    } else {
        (balance - amount) as i64
    }
}

/// The frame of an opened account on the wire.
pub open spec fn opened_frame() -> Seq<u8> {
    ascii("{\"OpenedAccount\":{}}"@)
}

/// What stands before the amount of a deposit on the wire.
pub open spec fn deposited_frame() -> Seq<u8> {
    ascii("{\"DepositedFunds\":{\"amount\":"@)
}

/// What stands before the amount of a withdrawal on the wire.
pub open spec fn withdrew_frame() -> Seq<u8> {
    ascii("{\"WithdrewFunds\":{\"amount\":"@)
}

/// What stands behind an amount on the wire.
pub open spec fn closing_frame() -> Seq<u8> {
    ascii("}}"@)
}

/// An event on the wire: a JSON object with the event's name as its one key and the
/// event's fields as an object under it, without any space.
pub open spec fn event_bytes(event: BankAccountEvent) -> Seq<u8> {
    match event {
        BankAccountEvent::OpenedAccount(_) => opened_frame(),
        BankAccountEvent::DepositedFunds(e) => deposited_frame() + digits(e.amount as nat)
            + closing_frame(),
        BankAccountEvent::WithdrewFunds(e) => withdrew_frame() + digits(e.amount as nat)
            + closing_frame(),
    }
}

/// The amount that `bytes` hold between `frame` and the closing frame.
pub open spec fn amount_behind(bytes: Seq<u8>, frame: Seq<u8>) -> Option<u32> {
    if holds_at(bytes, 0, frame) && holds_at(bytes, bytes.len() - 2, closing_frame()) {
        decimal_at(bytes, frame.len() as int, bytes.len() - 2)
    } else {
        None
    }
}

/// The event that bytes from the wire stand for, where they are an event as
/// `event_bytes` writes it.
pub open spec fn event_from(bytes: Seq<u8>) -> Option<BankAccountEvent> {
    if bytes == opened_frame() {
        Some(BankAccountEvent::OpenedAccount(AccountOpened {  }))
    } else if let Some(amount) = amount_behind(bytes, deposited_frame()) {
        Some(BankAccountEvent::DepositedFunds(FundsDeposited { amount }))
    } else if let Some(amount) = amount_behind(bytes, withdrew_frame()) {
        Some(BankAccountEvent::WithdrewFunds(FundsWithdrawn { amount }))
    } else {
        None
    }
}

/// Reads the amount that `bytes` hold between the frame `open` and the closing frame.
fn read_amount(bytes: &[u8], open: &Vec<u8>) -> (amount: Option<u32>)
    ensures
        amount == amount_behind(bytes@, open@),
{
    proof {
        reveal_strlit("}}");
    }
    let close = literal("}}");
    if bytes.len() < 2 {
        return None;
    }
    if matches_at(bytes, 0, open) && matches_at(bytes, bytes.len() - 2, &close) {
        parse_decimal(bytes, open.len(), bytes.len() - 2)
    } else {
        None
    }
}

/// A JSON object of objects of numbers, as plain values: the entries of the outer
/// object in its order, each with the entries of its inner object in theirs.
pub open spec fn objects_view(objects: Seq<(String, Vec<(String, u32)>)>) -> Seq<
    (Seq<char>, Seq<(Seq<char>, u32)>),
> {
    objects.map_values(
        |object: (String, Vec<(String, u32)>)|
            (object.0@, object.1@.map_values(|field: (String, u32)| (field.0@, field.1))),
    )
}

/// What `serde_json` reads bytes as, where it reads them as a JSON object of objects
/// of numbers that fit 32 bits; nothing where the bytes are anything else, such as an
/// object with a text, a list or a larger number inside.
pub uninterp spec fn json_objects(bytes: Seq<u8>) -> Option<Seq<(Seq<char>, Seq<(Seq<char>, u32)>)>>;

/// `serde_json::from_slice` at the type of a map of maps of `u32`, which reads a JSON
/// object of objects of numbers, spaces and all, and turns everything else down. The
/// maps are handed out as lists, entry for entry in the order the maps give. The
/// contract gives the result its name and claims nothing more of it.
#[verifier::external_body]
fn read_objects(bytes: &[u8]) -> (r: Option<Vec<(String, Vec<(String, u32)>)>>)
    ensures
        match r {
            Some(objects) => json_objects(bytes@) == Some(objects_view(objects@)),
            None => json_objects(bytes@) is None,
        },
{
    let read = serde_json::from_slice::<BTreeMap<String, BTreeMap<String, u32>>>(bytes).ok()?;
    Some(read.into_iter().map(|(name, fields)| (name, fields.into_iter().collect())).collect())
}

/// The number that a list of fields holds under `name`: that of the first field of
/// that name.
pub open spec fn field_of(fields: Seq<(Seq<char>, u32)>, name: Seq<char>) -> Option<u32>
    decreases fields.len(),
{
    if fields.len() == 0 {
        None
    } else if fields.first().0 == name {
        Some(fields.first().1)
    } else {
        field_of(fields.drop_first(), name)
    }
}

/// The event that a JSON object of objects of numbers stands for: an object with the
/// event's name as its one key, and under it the event's fields. Fields that the event
/// does not have are passed over.
pub open spec fn event_of(objects: Seq<(Seq<char>, Seq<(Seq<char>, u32)>)>) -> Option<
    BankAccountEvent,
> {
    if objects.len() != 1 {
        None
    } else if objects[0].0 == "OpenedAccount"@ {
        Some(BankAccountEvent::OpenedAccount(AccountOpened {  }))
    } else if objects[0].0 == "DepositedFunds"@ {
        match field_of(objects[0].1, "amount"@) {
            Some(amount) => Some(BankAccountEvent::DepositedFunds(FundsDeposited { amount })),
            None => None,
        }
    } else if objects[0].0 == "WithdrewFunds"@ {
        match field_of(objects[0].1, "amount"@) {
            Some(amount) => Some(BankAccountEvent::WithdrewFunds(FundsWithdrawn { amount })),
            None => None,
        }
    } else {
        None
    }
}

/// The event that bytes stand for: the event that they are the bytes of, or else the
/// event that `serde_json` reads them as.
pub open spec fn event_read(bytes: Seq<u8>) -> Option<BankAccountEvent> {
    match event_from(bytes) {
        Some(event) => Some(event),
        None => match json_objects(bytes) {
            Some(objects) => event_of(objects),
            None => None,
        },
    }
}

/// Tells whether a text is the text given.
fn is_text(text: &String, given: &str) -> (same: bool)
    ensures
        same == (text@ == given@),
{
    *text == given.to_owned()
}

/// Looks a field up by its name.
pub fn find_field(fields: &Vec<(String, u32)>, name: &str) -> (r: Option<u32>)
    ensures
        r == field_of(fields@.map_values(|field: (String, u32)| (field.0@, field.1)), name@),
{
    let ghost all = fields@.map_values(|field: (String, u32)| (field.0@, field.1));
    let mut i: usize = 0;
    proof {
        assert(all.skip(0) == all);
    }
    while i < fields.len()
        invariant
            i <= fields.len(),
            all == fields@.map_values(|field: (String, u32)| (field.0@, field.1)),
            field_of(all, name@) == field_of(all.skip(i as int), name@),
        decreases fields.len() - i,
    {
        proof {
            assert(all.skip(i as int).drop_first() == all.skip(i + 1));
        }
        if is_text(&fields[i].0, name) {
            return Some(fields[i].1);
        }
        i = i + 1;
    }
    None
}

/// Tells the event that a JSON object of objects stands for.
pub fn event_of_objects(objects: &Vec<(String, Vec<(String, u32)>)>) -> (r: Option<
    BankAccountEvent,
>)
    ensures
        r == event_of(objects_view(objects@)),
{
    if objects.len() != 1 {
        return None;
    }
    let name = &objects[0].0;
    let fields = &objects[0].1;
    if is_text(name, "OpenedAccount") {
        Some(BankAccountEvent::OpenedAccount(AccountOpened {  }))
    } else if is_text(name, "DepositedFunds") {
        match find_field(fields, "amount") {
            Some(amount) => Some(BankAccountEvent::DepositedFunds(FundsDeposited { amount })),
            None => None,
        }
    } else if is_text(name, "WithdrewFunds") {
        match find_field(fields, "amount") {
            Some(amount) => Some(BankAccountEvent::WithdrewFunds(FundsWithdrawn { amount })),
            None => None,
        }
    } else {
        None
    }
}

impl BankAccountEvent {
    /// Writes the event down as it is stored.
    pub fn to_bytes(&self) -> (bytes: Vec<u8>)
        ensures
            bytes@ == event_bytes(*self),
    {
        proof {
            reveal_strlit("{\"OpenedAccount\":{}}");
            reveal_strlit("{\"DepositedFunds\":{\"amount\":");
            reveal_strlit("{\"WithdrewFunds\":{\"amount\":");
            reveal_strlit("}}");
        }
        match self {
            BankAccountEvent::OpenedAccount(_) => literal("{\"OpenedAccount\":{}}"),
            BankAccountEvent::DepositedFunds(e) => {
                let mut bytes = literal("{\"DepositedFunds\":{\"amount\":");
                push_decimal(&mut bytes, e.amount);
                let mut close = literal("}}");
                bytes.append(&mut close);
                bytes
            },
            BankAccountEvent::WithdrewFunds(e) => {
                let mut bytes = literal("{\"WithdrewFunds\":{\"amount\":");
                push_decimal(&mut bytes, e.amount);
                let mut close = literal("}}");
                bytes.append(&mut close);
                bytes
            },
        }
    }

    /// Reads an event from JSON.
    ///
    /// Read are the bytes that [`BankAccountEvent::to_bytes`] writes, and beyond them
    /// every JSON text that `serde_json` reads as one object of objects of numbers: the
    /// event's name as the one key, its fields under it. Such a text is read however it
    /// is spaced and in whatever order its fields stand; numbers under other names are
    /// passed over, and of a field that is written twice the last one counts.
    ///
    /// Not read are an event whose object holds anything but numbers of 32 bits, be it
    /// under a name that the event does not have, and an event whose fields are written
    /// as a list.
    pub fn from_json(bytes: &[u8]) -> (event: Option<Self>)
        ensures
            event == event_read(bytes@),
    {
        match BankAccountEvent::from_bytes(bytes) {
            Some(event) => Some(event),
            None => match read_objects(bytes) {
                Some(objects) => event_of_objects(&objects),
                None => None,
            },
        }
    }

    /// Reads an event back from the bytes it was stored as, and from no others.
    pub fn from_bytes(bytes: &[u8]) -> (event: Option<Self>)
        ensures
            event == event_from(bytes@),
    {
        proof {
            reveal_strlit("{\"OpenedAccount\":{}}");
            reveal_strlit("{\"DepositedFunds\":{\"amount\":");
            reveal_strlit("{\"WithdrewFunds\":{\"amount\":");
        }
        let opened = literal("{\"OpenedAccount\":{}}");
        if bytes.len() == opened.len() && matches_at(bytes, 0, &opened) {
            proof {
                assert(bytes@.subrange(0, bytes@.len() as int) == bytes@);
            }
            return Some(BankAccountEvent::OpenedAccount(AccountOpened {  }));
        }
        proof {
            if bytes@ == opened_frame() {
                assert(bytes@.subrange(0, bytes@.len() as int) == bytes@);
            }
        }
        let deposited = literal("{\"DepositedFunds\":{\"amount\":");
        if let Some(amount) = read_amount(bytes, &deposited) {
            return Some(BankAccountEvent::DepositedFunds(FundsDeposited { amount }));
        }
        let withdrew = literal("{\"WithdrewFunds\":{\"amount\":");
        if let Some(amount) = read_amount(bytes, &withdrew) {
            return Some(BankAccountEvent::WithdrewFunds(FundsWithdrawn { amount }));
        }
        None
    }
}

/// What is written is what is read back: the bytes of an event stand for that event.
pub proof fn lemma_event_round_trip(event: BankAccountEvent)
    ensures
        event_from(event_bytes(event)) == Some(event),
        event_read(event_bytes(event)) == Some(event),
{
    reveal_strlit("{\"OpenedAccount\":{}}");
    reveal_strlit("{\"DepositedFunds\":{\"amount\":");
    reveal_strlit("{\"WithdrewFunds\":{\"amount\":");
    reveal_strlit("}}");
    let bytes = event_bytes(event);
    match event {
        BankAccountEvent::OpenedAccount(_) => {},
        BankAccountEvent::DepositedFunds(e) => {
            let open = deposited_frame();
            let text = digits(e.amount as nat);
            lemma_digits_round_trip(e.amount as nat);
            assert(bytes.subrange(0, open.len() as int) =~= open);
            assert(bytes.subrange(bytes.len() - 2, bytes.len() as int) =~= closing_frame());
            assert(bytes.subrange(open.len() as int, bytes.len() - 2) =~= text);
        },
        BankAccountEvent::WithdrewFunds(e) => {
            let open = withdrew_frame();
            let text = digits(e.amount as nat);
            lemma_digits_round_trip(e.amount as nat);
            assert(bytes.subrange(0, open.len() as int) =~= open);
            assert(bytes.subrange(bytes.len() - 2, bytes.len() as int) =~= closing_frame());
            assert(bytes.subrange(open.len() as int, bytes.len() - 2) =~= text);
            if holds_at(bytes, 0, deposited_frame()) {
                assert(bytes.subrange(0, deposited_frame().len() as int)[2] == bytes[2]);
            }
        },
    }
}

/// Bytes are read as an event only where they are that event as it is written: no
/// two runs of bytes stand for the same event.
pub proof fn lemma_event_bytes_are_unique(bytes: Seq<u8>)
    ensures
        event_from(bytes) matches Some(event) ==> event_bytes(event) == bytes,
{
    reveal_strlit("}}");
    if bytes != opened_frame() {
        let open = if amount_behind(bytes, deposited_frame()) is Some {
            deposited_frame()
        } else {
            withdrew_frame()
        };
        if amount_behind(bytes, open) is Some {
            let text = bytes.subrange(open.len() as int, bytes.len() - 2);
            lemma_decimal_is_digits(text);
            assert(bytes =~= bytes.subrange(0, open.len() as int) + text + bytes.subrange(
                bytes.len() - 2,
                bytes.len() as int,
            ));
        }
    }
}

impl Aggregate for BankAccount {
    type Command = BankAccountCommand;

    type Event = BankAccountEvent;

    /// A fresh account is closed and empty, whatever its identifier.
    open spec fn init_spec(id: Seq<char>) -> Self {
        BankAccount { opened: false, balance: 0 }
    }

    open spec fn decoded(bytes: Seq<u8>) -> Option<BankAccountEvent> {
        event_read(bytes)
    }

    /// Every event of an account can be written down.
    open spec fn encoded(event: BankAccountEvent) -> Option<Seq<u8>> {
        Some(event_bytes(event))
    }

    fn init(_id: String) -> (agg: Self) {
        BankAccount { opened: false, balance: 0 }
    }

    fn decode(bytes: &[u8]) -> (event: Option<BankAccountEvent>) {
        BankAccountEvent::from_json(bytes)
    }

    fn encode(event: &BankAccountEvent) -> (bytes: Option<Vec<u8>>) {
        Some(event.to_bytes())
    }
}

impl Handle<OpenAccount> for BankAccount {
    type Error = BankAccountError;

    /// An account is opened once.
    open spec fn handle_spec(&self, cmd: OpenAccount) -> Result<
        Seq<BankAccountEvent>,
        BankAccountError,
    > {
        if self.opened {
            Err(BankAccountError::AccountAlreadyOpened)
        } else {
            Ok(seq![BankAccountEvent::OpenedAccount(AccountOpened {  })])
        }
    }

    fn handle(&self, _cmd: OpenAccount) -> (r: Result<Vec<BankAccountEvent>, BankAccountError>) {
        if self.opened {
            return Err(BankAccountError::AccountAlreadyOpened);
        }
        let events = vec![BankAccountEvent::from(AccountOpened {  })];
        proof {
            assert(events@ =~= seq![BankAccountEvent::OpenedAccount(AccountOpened {  })]);
        }
        Ok(events)
    }
}

impl Handle<DepositFunds> for BankAccount {
    type Error = BankAccountError;

    /// An open account takes any amount but 0.
    open spec fn handle_spec(&self, cmd: DepositFunds) -> Result<
        Seq<BankAccountEvent>,
        BankAccountError,
    > {
        if !self.opened {
            Err(BankAccountError::AccountNotOpen)
        } else if cmd.amount == 0 {
            Err(BankAccountError::AmountIsZero)
        } else {
            Ok(seq![BankAccountEvent::DepositedFunds(FundsDeposited { amount: cmd.amount })])
        }
    }

    fn handle(&self, cmd: DepositFunds) -> (r: Result<Vec<BankAccountEvent>, BankAccountError>) {
        if !self.opened {
            return Err(BankAccountError::AccountNotOpen);
        }
        if cmd.amount == 0 {
            return Err(BankAccountError::AmountIsZero);
        }
        let events = vec![BankAccountEvent::from(FundsDeposited { amount: cmd.amount })];
        proof {
            assert(events@ =~= seq![
                BankAccountEvent::DepositedFunds(FundsDeposited { amount: cmd.amount }),
            ]);
        }
        Ok(events)
    }
}

impl Handle<WithdrawFunds> for BankAccount {
    type Error = BankAccountError;

    /// An open account pays out any amount but 0, up to what it holds.
    open spec fn handle_spec(&self, cmd: WithdrawFunds) -> Result<
        Seq<BankAccountEvent>,
        BankAccountError,
    > {
        if !self.opened {
            Err(BankAccountError::AccountNotOpen)
        } else if cmd.amount == 0 {
            Err(BankAccountError::AmountIsZero)
        } else if self.balance - cmd.amount < 0 {
            Err(BankAccountError::InsufficientBalance)
        } else {
            Ok(seq![BankAccountEvent::WithdrewFunds(FundsWithdrawn { amount: cmd.amount })])
        }
    }

    fn handle(&self, cmd: WithdrawFunds) -> (r: Result<Vec<BankAccountEvent>, BankAccountError>) {
        if !self.opened {
            return Err(BankAccountError::AccountNotOpen);
        }
        if cmd.amount == 0 {
            return Err(BankAccountError::AmountIsZero);
        }
        if self.balance < cmd.amount as i64 {
            return Err(BankAccountError::InsufficientBalance);
        }
        let events = vec![BankAccountEvent::from(FundsWithdrawn { amount: cmd.amount })];
        proof {
            assert(events@ =~= seq![
                BankAccountEvent::WithdrewFunds(FundsWithdrawn { amount: cmd.amount }),
            ]);
        }
        Ok(events)
    }
}

impl Apply<AccountOpened> for BankAccount {
    open spec fn apply_spec(self, event: AccountOpened) -> Self {
        BankAccount { opened: true, balance: self.balance }
    }

    fn apply(&mut self, _event: AccountOpened) {
        self.opened = true;
    }
}

impl Apply<FundsDeposited> for BankAccount {
    open spec fn apply_spec(self, event: FundsDeposited) -> Self {
        BankAccount { opened: self.opened, balance: credited(self.balance, event.amount) }
    }

    fn apply(&mut self, event: FundsDeposited) {
        self.balance = self.balance.wrapping_add(event.amount as i64);
    }
}

impl Apply<FundsWithdrawn> for BankAccount {
    open spec fn apply_spec(self, event: FundsWithdrawn) -> Self {
        BankAccount { opened: self.opened, balance: debited(self.balance, event.amount) }
    }

    fn apply(&mut self, event: FundsWithdrawn) {
        self.balance = self.balance.wrapping_sub(event.amount as i64);
    }
}

impl From<AccountOpened> for BankAccountEvent {
    fn from(event: AccountOpened) -> (r: Self) {
        BankAccountEvent::OpenedAccount(event)
    }
}

impl vstd::std_specs::convert::FromSpecImpl<AccountOpened> for BankAccountEvent {
    open spec fn obeys_from_spec() -> bool {
        true
    }

    open spec fn from_spec(event: AccountOpened) -> Self {
        BankAccountEvent::OpenedAccount(event)
    }
}

impl From<FundsDeposited> for BankAccountEvent {
    fn from(event: FundsDeposited) -> (r: Self) {
        BankAccountEvent::DepositedFunds(event)
    }
}

impl vstd::std_specs::convert::FromSpecImpl<FundsDeposited> for BankAccountEvent {
    open spec fn obeys_from_spec() -> bool {
        true
    }

    open spec fn from_spec(event: FundsDeposited) -> Self {
        BankAccountEvent::DepositedFunds(event)
    }
}

impl From<FundsWithdrawn> for BankAccountEvent {
    fn from(event: FundsWithdrawn) -> (r: Self) {
        BankAccountEvent::WithdrewFunds(event)
    }
}

impl vstd::std_specs::convert::FromSpecImpl<FundsWithdrawn> for BankAccountEvent {
    open spec fn obeys_from_spec() -> bool {
        true
    }

    open spec fn from_spec(event: FundsWithdrawn) -> Self {
        BankAccountEvent::WithdrewFunds(event)
    }
}

impl From<OpenAccount> for BankAccountCommand {
    fn from(cmd: OpenAccount) -> (r: Self) {
        BankAccountCommand::OpenAccount(cmd)
    }
}

impl vstd::std_specs::convert::FromSpecImpl<OpenAccount> for BankAccountCommand {
    open spec fn obeys_from_spec() -> bool {
        true
    }

    open spec fn from_spec(cmd: OpenAccount) -> Self {
        BankAccountCommand::OpenAccount(cmd)
    }
}

impl From<DepositFunds> for BankAccountCommand {
    fn from(cmd: DepositFunds) -> (r: Self) {
        BankAccountCommand::DepositFunds(cmd)
    }
}

impl vstd::std_specs::convert::FromSpecImpl<DepositFunds> for BankAccountCommand {
    open spec fn obeys_from_spec() -> bool {
        true
    }

    open spec fn from_spec(cmd: DepositFunds) -> Self {
        BankAccountCommand::DepositFunds(cmd)
    }
}

impl From<WithdrawFunds> for BankAccountCommand {
    fn from(cmd: WithdrawFunds) -> (r: Self) {
        BankAccountCommand::WithdrawFunds(cmd)
    }
}

impl vstd::std_specs::convert::FromSpecImpl<WithdrawFunds> for BankAccountCommand {
    open spec fn obeys_from_spec() -> bool {
        true
    }

    open spec fn from_spec(cmd: WithdrawFunds) -> Self {
        BankAccountCommand::WithdrawFunds(cmd)
    }
}

/// What an account decides on any of its commands: what it decides on the command
/// that the variant holds.
impl Handle<BankAccountCommand> for State<BankAccount> {
    type Error = BankAccountError;

    open spec fn handle_spec(&self, cmd: BankAccountCommand) -> Result<
        Seq<BankAccountEvent>,
        BankAccountError,
    > {
        match cmd {
            BankAccountCommand::OpenAccount(cmd) => self.0.handle_spec(cmd),
            BankAccountCommand::DepositFunds(cmd) => self.0.handle_spec(cmd),
            BankAccountCommand::WithdrawFunds(cmd) => self.0.handle_spec(cmd),
        }
    }

    fn handle(&self, cmd: BankAccountCommand) -> (r: Result<
        Vec<BankAccountEvent>,
        BankAccountError,
    >) {
        match cmd {
            BankAccountCommand::OpenAccount(cmd) => self.0.handle(cmd),
            BankAccountCommand::DepositFunds(cmd) => self.0.handle(cmd),
            BankAccountCommand::WithdrawFunds(cmd) => self.0.handle(cmd),
        }
    }
}

/// What any of its events does to an account: what the event that the variant holds
/// does to it.
impl Apply<BankAccountEvent> for State<BankAccount> {
    open spec fn apply_spec(self, event: BankAccountEvent) -> Self {
        match event {
            BankAccountEvent::OpenedAccount(event) => State(self.0.apply_spec(event)),
            BankAccountEvent::DepositedFunds(event) => State(self.0.apply_spec(event)),
            BankAccountEvent::WithdrewFunds(event) => State(self.0.apply_spec(event)),
        }
    }

    fn apply(&mut self, event: BankAccountEvent) {
        match event {
            BankAccountEvent::OpenedAccount(event) => self.0.apply(event),
            BankAccountEvent::DepositedFunds(event) => self.0.apply(event),
            BankAccountEvent::WithdrewFunds(event) => self.0.apply(event),
        }
    }
}

} // verus!
