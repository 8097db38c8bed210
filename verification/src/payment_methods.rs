//! Which payment method a subscription is charged with: the subscription's
//! configuration picks external payment, a bank transfer, or an online method
//! of the customer (a card before a direct debit).
use vstd::prelude::*;

verus! {

/// Kind of a stored customer payment method.
#[derive(Debug, Clone, Copy, PartialEq, Eq, Structural)]
pub enum PaymentMethodType {
    Card,
    DirectDebitSepa,
    DirectDebitAch,
    DirectDebitBacs,
    Other,
}

/// Whether one kind of online method may be used.
#[derive(Debug, Clone, Copy, PartialEq, Eq, Structural)]
pub struct MethodToggle {
    pub enabled: bool,
}

/// Per-kind switches of online payment; an absent switch means enabled.
#[derive(Debug, Clone, Copy, PartialEq, Eq, Structural)]
pub struct OnlineMethodsConfig {
    pub card: Option<MethodToggle>,
    pub direct_debit: Option<MethodToggle>,
}

/// How a subscription is paid.
#[derive(Debug, Clone, Copy, PartialEq, Eq, Structural)]
pub enum PaymentMethodsConfig {
    /// Charged online through the customer's saved methods.
    Online { config: Option<OnlineMethodsConfig> },
    /// Paid by transfer to a bank account (the invoicing entity's by default).
    BankTransfer { account_id: Option<u128> },
    /// Paid outside the platform: never charged automatically.
    External,
}

/// The outcome of resolving a subscription's payment method.
#[derive(Debug, Clone, Copy, PartialEq, Eq, Structural)]
pub enum ResolvedPaymentMethod {
    CustomerPaymentMethod(u128),
    BankTransfer(u128),
    NotConfigured,
}

/// A saved payment method of the customer.
#[derive(Debug, Clone, Copy, PartialEq, Eq, Structural)]
pub struct StoredPaymentMethod {
    pub id: u128,
    pub connector_id: u128,
    pub method_type: PaymentMethodType,
}

/// Which online methods may be used, and through which providers.
#[derive(Debug, Clone, Copy, PartialEq, Eq, Structural)]
pub struct OnlineChoice {
    pub card_enabled: bool,
    pub direct_debit_enabled: bool,
    pub card_provider: Option<u128>,
    pub direct_debit_provider: Option<u128>,
}

/// A switch that is absent or on.
pub open spec fn toggle_on(t: Option<MethodToggle>) -> bool {
    match t {
        Some(m) => m.enabled,
        None => true,
    }
}

/// The online choice for `config` and the invoicing entity's providers.
pub open spec fn online_choice_of(config: Option<OnlineMethodsConfig>, card_provider: Option<u128>, direct_debit_provider: Option<u128>) -> OnlineChoice {
    OnlineChoice {
        card_enabled: match config { Some(c) => toggle_on(c.card), None => true },
        direct_debit_enabled: match config { Some(c) => toggle_on(c.direct_debit), None => true },
        card_provider,
        direct_debit_provider,
    }
}

/// Reads the switches of an online configuration: a kind is enabled unless
/// its switch is present and off.
pub fn online_choice(config: Option<OnlineMethodsConfig>, card_provider: Option<u128>, direct_debit_provider: Option<u128>) -> (c: OnlineChoice)
    ensures
        c == online_choice_of(config, card_provider, direct_debit_provider),
{
    let (card_enabled, direct_debit_enabled) = match config {
        Some(cfg) => {
            let card = match cfg.card { Some(m) => m.enabled, None => true };
            let dd = match cfg.direct_debit { Some(m) => m.enabled, None => true };
            (card, dd)
        },
        None => (true, true),
    };
    OnlineChoice { card_enabled, direct_debit_enabled, card_provider, direct_debit_provider }
}

/// The providers whose saved methods are candidates: the card provider if
/// cards are enabled, then the direct-debit provider if direct debits are
/// enabled and it is not the card provider already listed.
pub open spec fn provider_ids_of(c: OnlineChoice) -> Seq<u128> {
    let cards: Seq<u128> = match c.card_provider {
        Some(p) if c.card_enabled => seq![p],
        _ => Seq::empty(),
    };
    match c.direct_debit_provider {
        Some(p) if c.direct_debit_enabled && !cards.contains(p) => cards.push(p),
        _ => cards,
    }
}

/// The candidate providers of an online choice, without repetition.
pub fn provider_ids(c: &OnlineChoice) -> (ids: Vec<u128>)
    ensures
        ids@ == provider_ids_of(*c),
{
    let mut ids: Vec<u128> = Vec::new();
    if c.card_enabled {
        if let Some(p) = c.card_provider {
            ids.push(p);
        }
    }
    if c.direct_debit_enabled {
        if let Some(p) = c.direct_debit_provider {
            let listed = ids.len() > 0 && ids[0] == p;
            proof {
                let cards = ids@;
                assert(cards.len() <= 1);
                if cards.len() == 1 {
                    assert(cards.contains(p) <==> cards[0] == p);
                } else {
                    assert(!cards.contains(p));
                }
            }
            if !listed {
                ids.push(p);
            }
        }
    }
    ids
}

/// A direct-debit kind (SEPA, ACH or BACS).
pub open spec fn is_direct_debit(t: PaymentMethodType) -> bool {
    t is DirectDebitSepa || t is DirectDebitAch || t is DirectDebitBacs
}

/// A saved card of the enabled card provider.
pub open spec fn card_match(c: OnlineChoice, m: StoredPaymentMethod) -> bool {
    m.method_type is Card && c.card_enabled && c.card_provider == Some(m.connector_id)
}

/// A saved direct debit of the enabled direct-debit provider.
pub open spec fn direct_debit_match(c: OnlineChoice, m: StoredPaymentMethod) -> bool {
    is_direct_debit(m.method_type) && c.direct_debit_enabled && c.direct_debit_provider == Some(m.connector_id)
}

/// `i` is the first index of `s` holding a matching card.
pub open spec fn first_card_at(c: OnlineChoice, s: Seq<StoredPaymentMethod>, i: int) -> bool {
    0 <= i < s.len() && card_match(c, s[i]) && forall|j: int| 0 <= j < i ==> !card_match(c, #[trigger] s[j])
}

/// `i` is the first index of `s` holding a matching direct debit.
pub open spec fn first_direct_debit_at(c: OnlineChoice, s: Seq<StoredPaymentMethod>, i: int) -> bool {
    0 <= i < s.len() && direct_debit_match(c, s[i]) && forall|j: int| 0 <= j < i ==> !direct_debit_match(c, #[trigger] s[j])
}

/// The method charged among the saved `methods`: the first matching card;
/// failing that, the first matching direct debit; failing that, none.
pub open spec fn picks(c: OnlineChoice, methods: Seq<StoredPaymentMethod>, r: ResolvedPaymentMethod) -> bool {
    if exists|i: int| 0 <= i < methods.len() && card_match(c, #[trigger] methods[i]) {
        exists|i: int| first_card_at(c, methods, i) && r == ResolvedPaymentMethod::CustomerPaymentMethod(methods[i].id)
    } else if exists|i: int| 0 <= i < methods.len() && direct_debit_match(c, #[trigger] methods[i]) {
        exists|i: int| first_direct_debit_at(c, methods, i) && r == ResolvedPaymentMethod::CustomerPaymentMethod(methods[i].id)
    } else {
        r == ResolvedPaymentMethod::NotConfigured
    }
}

/// Picks the method to charge among the customer's saved methods of the
/// candidate providers: a card of the card provider comes first; otherwise
/// the first direct debit of the direct-debit provider.
pub fn pick_payment_method(c: &OnlineChoice, methods: &Vec<StoredPaymentMethod>) -> (r: ResolvedPaymentMethod)
    ensures
        picks(*c, methods@, r),
{
    let mut best: Option<u128> = None;
    let ghost mut best_at: int = 0;
    let mut i: usize = 0;
    while i < methods.len()
        invariant
            i <= methods@.len(),
            forall|j: int| 0 <= j < i ==> !card_match(*c, #[trigger] methods@[j]),
            best is None ==> forall|j: int| 0 <= j < i ==> !direct_debit_match(*c, #[trigger] methods@[j]),
            best matches Some(id) ==> first_direct_debit_at(*c, methods@, best_at) && best_at < i && id == methods@[best_at].id,
        decreases methods@.len() - i,
    {
        let m = methods[i];
        let is_card = match m.method_type { PaymentMethodType::Card => true, _ => false };
        let is_dd = match m.method_type {
            PaymentMethodType::DirectDebitSepa | PaymentMethodType::DirectDebitAch | PaymentMethodType::DirectDebitBacs => true,
            _ => false,
        };
        let card_ok = c.card_enabled && match c.card_provider { Some(p) => p == m.connector_id, None => false };
        let dd_ok = c.direct_debit_enabled && match c.direct_debit_provider { Some(p) => p == m.connector_id, None => false };
        if is_card && card_ok {
            proof {
                assert(card_match(*c, methods@[i as int]));
                assert(first_card_at(*c, methods@, i as int));
            }
            return ResolvedPaymentMethod::CustomerPaymentMethod(m.id);
        } else if is_dd && dd_ok && best.is_none() {
            proof {
                assert(direct_debit_match(*c, methods@[i as int]));
                assert(first_direct_debit_at(*c, methods@, i as int));
                best_at = i as int;
            }
            best = Some(m.id);
        }
        i = i + 1;
    }
    proof {
        if best is Some {
            assert(direct_debit_match(*c, methods@[best_at]));
        }
    }
    match best {
        Some(id) => ResolvedPaymentMethod::CustomerPaymentMethod(id),
        None => ResolvedPaymentMethod::NotConfigured,
    }
}

/// What the configuration alone decides, or the online choice whose
/// candidate providers' saved methods are to be looked up.
#[derive(Debug, Clone, Copy, PartialEq, Eq, Structural)]
pub enum MethodLookup {
    Decided(ResolvedPaymentMethod),
    LookUpOnline(OnlineChoice),
}

/// The lookup a configuration calls for. No configuration means online
/// payment with every kind enabled. External payment is never charged; a bank
/// transfer goes to the configured account or else the invoicing entity's;
/// online payment with no candidate provider has nothing to charge.
pub open spec fn lookup_for(
    config: Option<PaymentMethodsConfig>,
    entity_bank_account: Option<u128>,
    card_provider: Option<u128>,
    direct_debit_provider: Option<u128>,
) -> MethodLookup {
    let online = match config {
        None => Some(None::<OnlineMethodsConfig>),
        Some(PaymentMethodsConfig::Online { config: oc }) => Some(oc),
        _ => None,
    };
    match online {
        Some(oc) => {
            let c = online_choice_of(oc, card_provider, direct_debit_provider);
            if provider_ids_of(c).len() == 0 {
                MethodLookup::Decided(ResolvedPaymentMethod::NotConfigured)
            } else {
                MethodLookup::LookUpOnline(c)
            }
        },
        None => match config {
            Some(PaymentMethodsConfig::BankTransfer { account_id }) => match (account_id, entity_bank_account) {
                (Some(a), _) => MethodLookup::Decided(ResolvedPaymentMethod::BankTransfer(a)),
                (None, Some(a)) => MethodLookup::Decided(ResolvedPaymentMethod::BankTransfer(a)),
                (None, None) => MethodLookup::Decided(ResolvedPaymentMethod::NotConfigured),
            },
            _ => MethodLookup::Decided(ResolvedPaymentMethod::NotConfigured),
        },
    }
}

/// Resolves what a subscription's payment configuration decides by itself.
pub fn payment_method_lookup(
    config: Option<PaymentMethodsConfig>,
    entity_bank_account: Option<u128>,
    card_provider: Option<u128>,
    direct_debit_provider: Option<u128>,
) -> (l: MethodLookup)
    ensures
        l == lookup_for(config, entity_bank_account, card_provider, direct_debit_provider),
{
    let config = match config {
        Some(cfg) => cfg,
        None => PaymentMethodsConfig::Online { config: None },
    };
    match config {
        PaymentMethodsConfig::External => MethodLookup::Decided(ResolvedPaymentMethod::NotConfigured),
        PaymentMethodsConfig::BankTransfer { account_id } => {
            let account = match account_id {
                Some(a) => Some(a),
                None => entity_bank_account,
            };
            match account {
                Some(a) => MethodLookup::Decided(ResolvedPaymentMethod::BankTransfer(a)),
                None => MethodLookup::Decided(ResolvedPaymentMethod::NotConfigured),
            }
        },
        PaymentMethodsConfig::Online { config: oc } => {
            let c = online_choice(oc, card_provider, direct_debit_provider);
            let ids = provider_ids(&c);
            if ids.len() == 0 {
                MethodLookup::Decided(ResolvedPaymentMethod::NotConfigured)
            } else {
                MethodLookup::LookUpOnline(c)
            }
        },
    }
}

} // verus!
