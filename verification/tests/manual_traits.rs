#![allow(clippy::unwrap_used, dead_code)]

use ferrunix::dependencies::Dependency;
use ferrunix::types::Registerable;
use ferrunix::{Registry, Transient};
use std::any::Any;
use std::error::Error;

type Value = Box<dyn Any>;
type BoxErr = Box<dyn Error>;
type Ctor = Box<dyn Fn(Vec<Dependency<Value>>) -> Result<Value, BoxErr>>;
type Reg = Registry<Value, BoxErr, Ctor>;

/// A constructor without dependencies that never fails.
fn ctor<T: 'static>(make: impl Fn() -> T + 'static) -> Ctor {
    Box::new(move |_deps| Ok(Box::new(make()) as Value))
}

/// A constructor with dependencies that never fails.
fn ctor_deps<T: 'static>(make: impl Fn(Vec<Dependency<Value>>) -> T + 'static) -> Ctor {
    Box::new(move |deps| Ok(Box::new(make(deps)) as Value))
}

/// The value of a resolved transient.
fn value<T: 'static>(resolved: Value) -> T {
    *resolved.downcast::<T>().unwrap()
}

#[derive(Debug)]
pub enum ExampleError {
    ChargeError,
}

impl std::fmt::Display for ExampleError {
    fn fmt(&self, fmt: &mut std::fmt::Formatter<'_>) -> std::fmt::Result {
        fmt.write_str("charge error")
    }
}

impl Error for ExampleError {}

#[derive(Debug, Default)]
pub struct Receipt(pub i32);

#[derive(Debug, Default)]
pub struct PizzaOrder(pub i32);

#[derive(Debug, Default)]
pub struct CreditCard {
    pub crc: String,
    pub expiry_month: u16,
    pub expiry_year: u16,
}

pub trait BillingService {
    fn charge_order(
        &self,
        order: PizzaOrder,
        creditcard: &CreditCard,
    ) -> Result<Receipt, ExampleError>;
}

pub trait CreditCardProcessor {
    fn charge(&self, creditcard: &CreditCard, amount: i32) -> Result<i32, ExampleError>;
}

pub trait TransactionLog {
    fn log_charge(&self, amount: i32);
    fn log_error(&self, err: &ExampleError);
}

#[derive(Debug, Default)]
pub struct PaypalCreditCardProcessor {}

impl CreditCardProcessor for PaypalCreditCardProcessor {
    fn charge(&self, _creditcard: &CreditCard, amount: i32) -> Result<i32, ExampleError> {
        println!("charging {amount} via PayPal");
        Ok(amount)
    }
}

#[derive(Debug, Default)]
pub struct RealTransactionLog {}

impl TransactionLog for RealTransactionLog {
    fn log_charge(&self, amount: i32) {
        println!("charged {amount}");
    }

    fn log_error(&self, err: &ExampleError) {
        println!("error: charging creditcard: {err}");
    }
}

pub struct RealBillingService {
    creditcard_processor: Box<dyn CreditCardProcessor>,
    transactionlog: Box<dyn TransactionLog>,
}

impl BillingService for RealBillingService {
    fn charge_order(
        &self,
        order: PizzaOrder,
        creditcard: &CreditCard,
    ) -> Result<Receipt, ExampleError> {
        match self.creditcard_processor.charge(creditcard, order.0) {
            Ok(charged_amount) => {
                self.transactionlog.log_charge(charged_amount);
                Ok(Receipt(charged_amount))
            }
            Err(err) => {
                self.transactionlog.log_error(&err);
                Err(err)
            }
        }
    }
}

impl Registerable for Box<dyn CreditCardProcessor> {
    fn display_name() -> &'static str {
        "Box<dyn CreditCardProcessor>"
    }
}

impl Registerable for Box<dyn TransactionLog> {
    fn display_name() -> &'static str {
        "Box<dyn TransactionLog>"
    }
}

impl Registerable for Box<dyn BillingService> {
    fn display_name() -> &'static str {
        "Box<dyn BillingService>"
    }
}

#[test]
fn registry_dyn_traits() {
    let mut registry: Reg = Registry::empty();
    registry.register_transient::<Box<dyn CreditCardProcessor>>(ctor(
        || -> Box<dyn CreditCardProcessor> { Box::new(PaypalCreditCardProcessor::default()) },
    ));
    registry.register_transient::<Box<dyn TransactionLog>>(ctor(
        || -> Box<dyn TransactionLog> { Box::new(RealTransactionLog::default()) },
    ));
    registry.validate_all().unwrap();

    registry
        .with_deps::<Box<dyn BillingService>, (
            Transient<Box<dyn TransactionLog>>,
            Transient<Box<dyn CreditCardProcessor>>,
        )>()
        .register_transient(ctor_deps(|mut deps| -> Box<dyn BillingService> {
            let processor = value::<Box<dyn CreditCardProcessor>>(deps.pop().unwrap().transient());
            let transaction = value::<Box<dyn TransactionLog>>(deps.pop().unwrap().transient());
            Box::new(RealBillingService {
                transactionlog: transaction,
                creditcard_processor: processor,
            })
        }));

    registry.validate_all().unwrap();

    let billing_service =
        value::<Box<dyn BillingService>>(registry.transient::<Box<dyn BillingService>>().unwrap());

    let order = PizzaOrder(100);
    let creditcard = CreditCard {
        crc: "1234".to_owned(),
        expiry_year: 25,
        expiry_month: 11,
    };
    let result = billing_service.charge_order(order, &creditcard);

    result.unwrap();
}
