use std::cell::{Cell, RefCell};
use std::convert::Infallible;
use std::rc::Rc;

use embedded_hal::blocking::spi::Transfer;
use embedded_hal::digital::v2::OutputPin;
use embedded_nrf24l01::{Configuration, RxMode, StandbyMode, TxMode, NRF24L01};
use smart_presenter::nrf24_mode::NRF24Mode;

/// A pin whose level the test can read.
struct Pin(Rc<Cell<bool>>);

impl OutputPin for Pin {
    type Error = Infallible;

    fn set_low(&mut self) -> Result<(), Infallible> {
        self.0.set(false);
        Ok(())
    }

    fn set_high(&mut self) -> Result<(), Infallible> {
        self.0.set(true);
        Ok(())
    }
}

/// What the test shares with the bus: the registers of the radio, the
/// commands it was sent, and whether the bus is broken.
struct Chip {
    registers: RefCell<[u8; 32]>,
    commands: RefCell<Vec<u8>>,
    broken: Cell<bool>,
}

impl Chip {
    fn new() -> Rc<Chip> {
        let mut registers = [0u8; 32];
        registers[0x03] = 0b11;
        registers[0x17] = 0b0001_0001;
        Rc::new(Chip {
            registers: RefCell::new(registers),
            commands: RefCell::new(Vec::new()),
            broken: Cell::new(false),
        })
    }

    fn config(&self) -> u8 {
        self.registers.borrow()[0]
    }

    fn sent(&self) -> usize {
        self.commands.borrow().len()
    }
}

/// A bus that answers as the radio would.
struct Bus(Rc<Chip>);

impl Transfer<u8> for Bus {
    type Error = ();

    fn transfer<'w>(&mut self, words: &'w mut [u8]) -> Result<&'w [u8], ()> {
        if self.0.broken.get() {
            return Err(());
        }
        let command = words[0];
        self.0.commands.borrow_mut().push(command);
        let mut registers = self.0.registers.borrow_mut();
        words[0] = registers[0x07];
        if command < 0x20 {
            for w in words[1..].iter_mut() {
                *w = registers[command as usize];
            }
        } else if command < 0x40 && words.len() > 1 {
            registers[(command & 0x1F) as usize] = words[1];
        }
        Ok(words)
    }
}

type Device = NRF24L01<Infallible, Pin, Pin, Bus>;
type Radio = NRF24Mode<StandbyMode<Device>, TxMode<Device>, RxMode<Device>>;
type Failure = embedded_nrf24l01::Error<()>;

struct Bench {
    chip: Rc<Chip>,
    ce: Rc<Cell<bool>>,
}

fn bench() -> (Radio, Bench) {
    let chip = Chip::new();
    let ce = Rc::new(Cell::new(true));
    let csn = Rc::new(Cell::new(false));
    let standby = NRF24L01::new(Pin(ce.clone()), Pin(csn), Bus(chip.clone())).unwrap();
    (NRF24Mode::Standby(standby), Bench { chip, ce })
}

fn leave_tx(tx: TxMode<Device>) -> Result<StandbyMode<Device>, Failure> {
    tx.standby()
}

fn leave_rx(rx: RxMode<Device>) -> StandbyMode<Device> {
    rx.standby()
}

fn enter_tx(standby: StandbyMode<Device>) -> Result<TxMode<Device>, Failure> {
    standby.tx().map_err(|(_, e)| e)
}

fn enter_rx(standby: StandbyMode<Device>) -> Result<RxMode<Device>, Failure> {
    standby.rx().map_err(|(_, e)| e)
}

fn to_standby(radio: Radio) -> Result<Radio, Failure> {
    radio.to_standby(leave_tx, leave_rx)
}

fn to_tx(radio: Radio) -> Result<Radio, Failure> {
    radio.to_tx(leave_rx, enter_tx)
}

fn to_rx(radio: Radio) -> Result<Radio, Failure> {
    radio.to_rx(leave_tx, enter_rx)
}

const PRIM_RX: u8 = 0b01;
const PWR_UP: u8 = 0b10;

#[test]
fn standby_to_tx_to_rx_to_standby() {
    let (radio, bench) = bench();
    assert!(matches!(radio, NRF24Mode::Standby(_)));
    assert_eq!(bench.chip.config() & PWR_UP, PWR_UP);
    assert!(!bench.ce.get());

    let radio = to_tx(radio).ok().unwrap();
    assert!(matches!(radio, NRF24Mode::Tx(_)));
    assert_eq!(bench.chip.config() & PRIM_RX, 0);
    assert!(!bench.ce.get());

    let radio = to_rx(radio).ok().unwrap();
    assert!(matches!(radio, NRF24Mode::Rx(_)));
    assert_eq!(bench.chip.config() & PRIM_RX, PRIM_RX);
    assert!(bench.ce.get());

    let mut radio = to_standby(radio).ok().unwrap();
    assert!(matches!(radio, NRF24Mode::Standby(_)));
    assert!(!bench.ce.get());

    let before = bench.chip.sent();
    let standby = radio.standby_ref().unwrap();
    assert_eq!(standby.get_frequency().ok(), Some(0));
    assert_eq!(bench.chip.sent(), before + 1);
    assert_eq!(Rc::strong_count(&bench.chip), 2);
}

#[test]
fn change_to_the_mode_at_hand_does_nothing() {
    let (radio, bench) = bench();
    let before = bench.chip.sent();
    let radio = to_standby(radio).ok().unwrap();
    assert!(matches!(radio, NRF24Mode::Standby(_)));
    assert_eq!(bench.chip.sent(), before);

    let radio = to_tx(radio).ok().unwrap();
    let before = bench.chip.sent();
    let radio = to_tx(radio).ok().unwrap();
    assert!(matches!(radio, NRF24Mode::Tx(_)));
    assert_eq!(bench.chip.sent(), before);

    let radio = to_rx(radio).ok().unwrap();
    let before = bench.chip.sent();
    let radio = to_rx(radio).ok().unwrap();
    assert!(matches!(radio, NRF24Mode::Rx(_)));
    assert_eq!(bench.chip.sent(), before);
    assert!(bench.ce.get());
}

#[test]
fn rx_to_tx_goes_through_standby() {
    let (radio, bench) = bench();
    let radio = to_rx(radio).ok().unwrap();
    assert!(bench.ce.get());
    let levels = Rc::new(RefCell::new(Vec::new()));
    let seen = levels.clone();
    let ce = bench.ce.clone();
    let radio = radio
        .to_tx(leave_rx, move |standby: StandbyMode<Device>| {
            seen.borrow_mut().push(ce.get());
            enter_tx(standby)
        })
        .ok()
        .unwrap();
    assert!(matches!(radio, NRF24Mode::Tx(_)));
    assert_eq!(*levels.borrow(), vec![false]);
    assert_eq!(bench.chip.config() & PRIM_RX, 0);
}

#[test]
fn tx_to_rx_goes_through_standby() {
    let (radio, bench) = bench();
    let radio = to_tx(radio).ok().unwrap();
    let order = Rc::new(RefCell::new(Vec::new()));
    let (first, second) = (order.clone(), order.clone());
    let radio = radio
        .to_rx(
            move |tx: TxMode<Device>| {
                first.borrow_mut().push("leave");
                leave_tx(tx)
            },
            move |standby: StandbyMode<Device>| {
                second.borrow_mut().push("enter");
                enter_rx(standby)
            },
        )
        .ok()
        .unwrap();
    assert!(matches!(radio, NRF24Mode::Rx(_)));
    assert_eq!(*order.borrow(), vec!["leave", "enter"]);
    assert_eq!(bench.chip.config() & PRIM_RX, PRIM_RX);
}

#[test]
fn refs_give_the_handle_of_the_mode_at_hand_only() {
    let (mut radio, bench) = bench();
    assert!(radio.standby_ref().is_some());
    assert!(radio.tx_ref().is_none());
    assert!(radio.rx_ref().is_none());

    let mut radio = to_tx(radio).ok().unwrap();
    assert!(radio.standby_ref().is_none());
    assert!(radio.rx_ref().is_none());
    let tx = radio.tx_ref().unwrap();
    assert_eq!(tx.is_empty().ok(), Some(true));
    assert!(tx.send(b"hello").is_ok());
    assert!(bench.ce.get());
    assert_eq!(bench.chip.commands.borrow().last(), Some(&0b1010_0000));

    let mut radio = to_rx(radio).ok().unwrap();
    assert!(radio.standby_ref().is_none());
    assert!(radio.tx_ref().is_none());
    let rx = radio.rx_ref().unwrap();
    assert_eq!(rx.can_read().ok(), Some(None));
    assert!(matches!(radio, NRF24Mode::Rx(_)));
}

#[test]
fn failed_entry_fails_the_change() {
    let (radio, bench) = bench();
    bench.chip.broken.set(true);
    let r = to_rx(radio);
    assert!(matches!(r, Err(embedded_nrf24l01::Error::SpiError(()))));
    assert!(!bench.ce.get());

    let (radio, bench) = bench_in_rx();
    bench.chip.broken.set(true);
    let r = to_tx(radio);
    assert!(r.is_err());
    assert!(!bench.ce.get());
}

fn bench_in_rx() -> (Radio, Bench) {
    let (radio, bench) = bench();
    (to_rx(radio).ok().unwrap(), bench)
}

#[test]
fn failed_exit_fails_the_change() {
    let (radio, bench) = bench();
    let radio = to_tx(radio).ok().unwrap();
    bench.chip.broken.set(true);
    assert!(to_standby(radio).is_err());

    let (radio, bench) = bench_in_tx();
    bench.chip.broken.set(true);
    let entered = Rc::new(Cell::new(false));
    let flag = entered.clone();
    let r = radio.to_rx(leave_tx, move |standby: StandbyMode<Device>| {
        flag.set(true);
        enter_rx(standby)
    });
    assert!(r.is_err());
    assert!(!entered.get());
}

fn bench_in_tx() -> (Radio, Bench) {
    let (radio, bench) = bench();
    (to_tx(radio).ok().unwrap(), bench)
}

#[test]
fn leaving_rx_cannot_fail() {
    let (radio, bench) = bench_in_rx();
    bench.chip.broken.set(true);
    let radio = to_standby(radio).ok().unwrap();
    assert!(matches!(radio, NRF24Mode::Standby(_)));
    assert!(!bench.ce.get());
}

type Plain = NRF24Mode<(u32, &'static str), (u32, &'static str), (u32, &'static str)>;

fn step(to: &'static str) -> impl FnOnce((u32, &'static str)) -> Result<(u32, &'static str), String> {
    move |(id, _)| Ok((id, to))
}

fn fail(with: &'static str) -> impl FnOnce((u32, &'static str)) -> Result<(u32, &'static str), String> {
    move |(id, from)| Err(format!("{} {} {}", with, id, from))
}

#[test]
fn the_handle_passes_through_each_operation() {
    let radio: Plain = NRF24Mode::Standby((7, "new"));
    let radio = radio.to_tx(|(id, _)| (id, "left rx"), step("entered tx")).unwrap();
    assert!(matches!(radio, NRF24Mode::Tx((7, "entered tx"))));
    let radio = radio.to_rx(step("left tx"), |(id, from)| {
        assert_eq!(from, "left tx");
        Ok::<_, String>((id, "entered rx"))
    });
    let radio = radio.unwrap();
    assert!(matches!(radio, NRF24Mode::Rx((7, "entered rx"))));
    let radio = radio.to_tx(|(id, _)| (id, "left rx"), |(id, from)| {
        assert_eq!(from, "left rx");
        Ok::<_, String>((id, "entered tx"))
    });
    let radio = radio.unwrap();
    assert!(matches!(radio, NRF24Mode::Tx((7, "entered tx"))));
    let radio = radio.to_standby(step("left tx"), |(id, _)| (id, "left rx")).unwrap();
    assert!(matches!(radio, NRF24Mode::Standby((7, "left tx"))));
    let radio: Plain = NRF24Mode::Rx((9, "rx"));
    let radio = radio.to_standby(step("left tx"), |(id, _)| (id, "left rx")).unwrap();
    assert!(matches!(radio, NRF24Mode::Standby((9, "left rx"))));
}

#[test]
fn the_mode_at_hand_is_handed_to_no_operation() {
    let radio: Plain = NRF24Mode::Standby((1, "same"));
    let radio = radio.to_standby(fail("leave tx"), |_| unreachable!()).unwrap();
    assert!(matches!(radio, NRF24Mode::Standby((1, "same"))));
    let radio: Plain = NRF24Mode::Tx((2, "same"));
    let radio = radio.to_tx(|_| unreachable!(), fail("enter tx")).unwrap();
    assert!(matches!(radio, NRF24Mode::Tx((2, "same"))));
    let radio: Plain = NRF24Mode::Rx((3, "same"));
    let radio = radio.to_rx(fail("leave tx"), fail("enter rx")).unwrap();
    assert!(matches!(radio, NRF24Mode::Rx((3, "same"))));
}

#[test]
fn the_error_of_the_failed_operation_comes_back() {
    let radio: Plain = NRF24Mode::Tx((4, "tx"));
    assert_eq!(
        radio.to_standby(fail("leave tx"), |h| h).err(),
        Some("leave tx 4 tx".to_string())
    );
    let radio: Plain = NRF24Mode::Standby((5, "standby"));
    assert_eq!(radio.to_tx(|h| h, fail("enter tx")).err(), Some("enter tx 5 standby".to_string()));
    let radio: Plain = NRF24Mode::Rx((6, "rx"));
    assert_eq!(
        radio.to_tx(|(id, _)| (id, "left rx"), fail("enter tx")).err(),
        Some("enter tx 6 left rx".to_string())
    );
    let radio: Plain = NRF24Mode::Tx((7, "tx"));
    assert_eq!(
        radio.to_rx(fail("leave tx"), fail("enter rx")).err(),
        Some("leave tx 7 tx".to_string())
    );
    let radio: Plain = NRF24Mode::Tx((8, "tx"));
    assert_eq!(
        radio.to_rx(step("left tx"), fail("enter rx")).err(),
        Some("enter rx 8 left tx".to_string())
    );
    let radio: Plain = NRF24Mode::Standby((9, "standby"));
    assert_eq!(
        radio.to_rx(fail("leave tx"), fail("enter rx")).err(),
        Some("enter rx 9 standby".to_string())
    );
}

#[test]
fn refs_change_the_handle_in_place() {
    let mut radio: Plain = NRF24Mode::Standby((1, "a"));
    radio.standby_ref().unwrap().0 = 10;
    assert!(matches!(radio, NRF24Mode::Standby((10, "a"))));
    assert!(radio.tx_ref().is_none());
    let mut radio: Plain = NRF24Mode::Tx((2, "b"));
    *radio.tx_ref().unwrap() = (20, "c");
    assert!(matches!(radio, NRF24Mode::Tx((20, "c"))));
    assert!(radio.rx_ref().is_none());
    let mut radio: Plain = NRF24Mode::Rx((3, "d"));
    radio.rx_ref().unwrap().1 = "e";
    assert!(matches!(radio, NRF24Mode::Rx((3, "e"))));
    assert!(radio.standby_ref().is_none());
}
