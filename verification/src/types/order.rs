//! Swap orders.
use vstd::prelude::*;

use crate::amount::Amount;
use crate::bytes::Address;

verus! {

/// Specifies the side of an order. Only sell (exact input) orders exist.
#[derive(Debug, Clone, Copy, PartialEq, Eq, Structural)]
pub enum OrderSide {
    /// Sell exactly the specified amount of the input token.
    Sell,
}

/// Errors that can occur when validating an [`Order`].
#[derive(Debug, Clone, Copy, PartialEq, Eq, Structural)]
pub enum OrderValidationError {
    /// `token_in` and `token_out` are the same address.
    SameTokens,
    /// The requested swap amount is zero.
    ZeroAmount,
}

impl OrderValidationError {
    /// What is wrong, in words.
    pub fn message(&self) -> (r: &'static str)
        ensures
            r@ == match self {
                OrderValidationError::SameTokens => "token_in and token_out must be different"@,
                OrderValidationError::ZeroAmount => "amount must be non-zero"@,
            },
    {
        match self {
            OrderValidationError::SameTokens => "token_in and token_out must be different",
            OrderValidationError::ZeroAmount => "amount must be non-zero",
        }
    }
}

/// Whether a text is shaped like a random identifier: groups of 8, 4, 4, 4 and 12 digits in base 16,
/// with dashes between them. The third group starts with the version, and the fourth with the variant.
pub open spec fn is_identifier_text(text: Seq<char>) -> bool {
    &&& text.len() == 36
    &&& forall|i: int|
        0 <= i < 36 ==> if i == 8 || i == 13 || i == 18 || i == 23 {
            #[trigger] text[i] == '-'
        } else {
            '0' <= text[i] <= '9' || 'a' <= text[i] <= 'f'
        }
    &&& text[14] == '4'
    &&& text[19] == '8' || text[19] == '9' || text[19] == 'a' || text[19] == 'b'
}

/// `uuid::Uuid::new_v4` and its text: five groups of lower-case digits in base 16, of which one is the
/// version and two bits are the variant. All other digits are random, so nothing more is said of them.
#[verifier::external_body]
fn random_identifier() -> (r: String)
    ensures
        is_identifier_text(r@),
{
    uuid::Uuid::new_v4().to_string()
}

/// Generates a unique order ID.
pub fn generate_order_id() -> (r: String)
    ensures
        is_identifier_text(r@),
{
    random_identifier()
}

/// A single swap order: an intent to swap one token for another.
#[derive(Debug)]
pub struct Order {
    /// Unique identifier for this order.
    pub id: String,
    /// Input token address (the token being sold).
    pub token_in: Address,
    /// Output token address (the token being bought).
    pub token_out: Address,
    /// Amount to swap, interpreted according to `side`.
    pub amount: Amount,
    pub side: OrderSide,
    /// Address that will send the input tokens.
    pub sender: Address,
    /// Address that will receive the output tokens; the sender where it is not given.
    pub receiver: Option<Address>,
}

/// A copy of an optional address.
pub fn copy_address(address: &Option<Address>) -> (r: Option<Address>)
    ensures
        r == *address,
{
    match address {
        Some(a) => Some(a.clone()),
        None => None,
    }
}

impl Clone for Order {
    fn clone(&self) -> (r: Self)
        ensures
            r == *self,
    {
        Order {
            id: self.id.clone(),
            token_in: self.token_in.clone(),
            token_out: self.token_out.clone(),
            amount: self.amount.clone(),
            side: self.side,
            sender: self.sender.clone(),
            receiver: copy_address(&self.receiver),
        }
    }
}

impl Order {
    /// Creates an order with a generated ID.
    pub fn new(
        token_in: Address,
        token_out: Address,
        amount: Amount,
        side: OrderSide,
        sender: Address,
    ) -> (r: Self)
        ensures
            is_identifier_text(r.id@),
            r == (Order { id: r.id, token_in, token_out, amount, side, sender, receiver: None }),
    {
        Order { id: generate_order_id(), token_in, token_out, amount, side, sender, receiver: None }
    }

    /// Replaces the generated ID.
    pub fn with_id(self, id: String) -> (r: Self)
        ensures
            r == (Order { id: id, ..self }),
    {
        Order { id: id, ..self }
    }

    /// Sets the receiver address.
    pub fn with_receiver(self, receiver: Address) -> (r: Self)
        ensures
            r == (Order { receiver: Some(receiver), ..self }),
    {
        Order { receiver: Some(receiver), ..self }
    }

    /// The order ID.
    pub fn id(&self) -> (r: &str)
        ensures
            r@ == self.id@,
    {
        self.id.as_str()
    }

    /// The input token address.
    pub fn token_in(&self) -> (r: &Address)
        ensures
            *r == self.token_in,
    {
        &self.token_in
    }

    /// The output token address.
    pub fn token_out(&self) -> (r: &Address)
        ensures
            *r == self.token_out,
    {
        &self.token_out
    }

    /// The swap amount.
    pub fn amount(&self) -> (r: &Amount)
        ensures
            *r == self.amount,
    {
        &self.amount
    }

    /// The order side.
    pub fn side(&self) -> (r: OrderSide)
        ensures
            r == self.side,
    {
        self.side
    }

    /// The sender address.
    pub fn sender(&self) -> (r: &Address)
        ensures
            *r == self.sender,
    {
        &self.sender
    }

    /// The receiver address, if set.
    pub fn receiver(&self) -> (r: Option<&Address>)
        ensures
            match self.receiver {
                Some(v) => r == Some(&v),
                None => r is None,
            },
    {
        self.receiver.as_ref()
    }

    /// Whether this is a sell order (exact input amount).
    pub fn is_sell(&self) -> (r: bool)
        ensures
            r == (self.side == OrderSide::Sell),
    {
        self.side == OrderSide::Sell
    }

    /// The address that will receive the output tokens: the receiver if set, otherwise the sender.
    pub open spec fn output_receiver(self) -> Address {
        match self.receiver {
            Some(receiver) => receiver,
            None => self.sender,
        }
    }

    /// The address that will receive the output tokens.
    pub fn effective_receiver(&self) -> (r: Address)
        ensures
            r == self.output_receiver(),
    {
        match &self.receiver {
            Some(receiver) => receiver.clone(),
            None => self.sender.clone(),
        }
    }

    /// Validates the order: its tokens differ, and its amount is not zero.
    pub fn validate(&self) -> (r: Result<(), OrderValidationError>)
        ensures
            r == if self.token_in@ == self.token_out@ {
                Err(OrderValidationError::SameTokens)
            } else if self.amount@ == 0 {
                Err(OrderValidationError::ZeroAmount)
            } else {
                Ok(())
            },
    {
        if self.token_in.same(&self.token_out) {
            return Err(OrderValidationError::SameTokens);
        }
        if self.amount.is_zero() {
            return Err(OrderValidationError::ZeroAmount);
        }
        Ok(())
    }
}

/// What an order yields goes to its receiver where it has one, and else to its sender.
pub proof fn outputs_go_to_the_receiver(order: Order)
    ensures
        order.receiver is Some ==> order.output_receiver() == order.receiver->Some_0,
        order.receiver is None ==> order.output_receiver() == order.sender,
{
}

/// An order is valid exactly where its tokens differ and its amount is above zero; equal tokens are told
/// before a zero amount.
pub proof fn orders_are_valid_between_two_tokens(
    order: Order,
    r: Result<(), OrderValidationError>,
)
    requires
        call_ensures(Order::validate, (&order,), r),
    ensures
        r is Ok <==> order.token_in@ != order.token_out@ && order.amount@ > 0,
        order.token_in@ == order.token_out@ ==> r == Err::<(), OrderValidationError>(
            OrderValidationError::SameTokens,
        ),
{
}

/// What is wrong with an order is told in these words.
pub proof fn faults_of_orders_are_told(error: OrderValidationError, r: &'static str)
    requires
        call_ensures(OrderValidationError::message, (&error,), r),
    ensures
        error == OrderValidationError::SameTokens ==> r@ == "token_in and token_out must be different"@,
        error == OrderValidationError::ZeroAmount ==> r@ == "amount must be non-zero"@,
{
}

} // verus!
