//! The catalogue of examples that the playground offers: eight Rust
//! programs about pinning, and JavaScript and Go programs for comparison.
//! Each example names the mode it runs in, the line ranges meant for
//! editing and what running it shows.
use crate::go_proxy::sanitize_go;
use crate::js_runner::sanitize_js;
use crate::security::sanitize_code;
use crate::text::same_text;
use vstd::prelude::*;

verus! {

/// The language of an example.
#[derive(Debug, Clone, Copy, PartialEq, Eq, Structural)]
pub enum Language {
    Rust,
    JavaScript,
    Go,
}

/// What running an example demonstrates.
#[derive(Debug, Clone, Copy, PartialEq, Eq, Structural)]
pub enum ExpectedBehavior {
    RuntimeCorruption,
    CompileError,
    Success,
    UndefinedBehavior,
}

/// An example program.
#[derive(Clone, Copy)]
pub struct Example {
    pub id: &'static str,
    pub title: &'static str,
    /// The section of the article the example belongs to.
    pub section: &'static str,
    pub description: &'static str,
    pub code: &'static str,
    /// Line ranges meant for editing.
    pub editable_regions: &'static [(usize, usize)],
    /// How the example is run: `debug`, `release`, `interpret` or `run`.
    pub mode: &'static str,
    pub language: Language,
    pub expected_behavior: ExpectedBehavior,
}

/// The source of `rs_01_crime_scene`.
pub const CRIME_SCENE_CODE: &'static str = r#"// ============================================================
// Example 1: The Crime Scene
// ============================================================
// A self-referential struct WITHOUT Pin protection.
// We build it, create an internal pointer, then use
// std::mem::swap to move the memory. The pointer goes stale.
// Run this and watch the corruption happen.
// ============================================================

use std::ptr;

struct SelfReferential {
    value: String,
    // This pointer will point to `value` above — inside the SAME struct.
    pointer_to_value: *const String,
}

impl SelfReferential {
    fn new(text: &str) -> Self {
        let mut sr = SelfReferential {
            value: String::from(text),
            pointer_to_value: ptr::null(),
        };
        sr.pointer_to_value = &sr.value as *const String;
        sr
    }

    // Dereference the raw pointer to see what it points to.
    // If the struct moved, this points at garbage.
    fn get_value_via_pointer(&self) -> &str {
        unsafe { &*self.pointer_to_value }
    }
}

fn main() {
    let mut a = SelfReferential::new("hello from A");
    let mut b = SelfReferential::new("hello from B");

    // Fix up the pointers after construction (they moved during let binding)
    a.pointer_to_value = &a.value as *const String;
    b.pointer_to_value = &b.value as *const String;

    println!("=== BEFORE swap ===");
    println!("a.value          = {:?}", a.value);
    println!("a via pointer    = {:?}", a.get_value_via_pointer());
    println!("b.value          = {:?}", b.value);
    println!("b via pointer    = {:?}", b.get_value_via_pointer());
    println!();

    // THE VILLAIN: std::mem::swap physically exchanges the bytes.
    // The internal pointers now point to each other's old locations!
    std::mem::swap(&mut a, &mut b);

    println!("=== AFTER swap ===");
    println!("a.value          = {:?}", a.value);
    println!("a via pointer    = {:?}", a.get_value_via_pointer());
    println!("  ^ These two should match, but the pointer is STALE!");
    println!("b.value          = {:?}", b.value);
    println!("b via pointer    = {:?}", b.get_value_via_pointer());
    println!("  ^ Same problem here. The pointers survived the swap,");
    println!("    but they still point to the OLD memory locations.");
}
"#;

/// The editable lines of `rs_01_crime_scene`.
pub const CRIME_SCENE_REGIONS: [(usize, usize); 1] = [(28, 33)];

/// The source of `rs_02_bouncer`.
pub const BOUNCER_CODE: &'static str = r#"// ============================================================
// Example 2: The Bouncer
// ============================================================
// Same self-referential struct, but now we use Pin.
// The dangerous swap line is included — it will NOT compile.
// The compiler error IS the lesson: Pin blocks &mut access
// for !Unpin types, making swap impossible.
//
// Try uncommenting the swap line to see the bouncer in action.
// ============================================================

use std::marker::PhantomPinned;
use std::pin::Pin;
use std::ptr;

struct SelfReferential {
    value: String,
    pointer_to_value: *const String,
    // This marker makes the struct !Unpin — it opts out of safe movement.
    _pin: PhantomPinned,
}

impl SelfReferential {
    fn new(text: &str) -> Self {
        SelfReferential {
            value: String::from(text),
            pointer_to_value: ptr::null(),
            _pin: PhantomPinned,
        }
    }

    // Initialize the self-reference after pinning.
    // This is the safe pattern: pin first, then set up internal pointers.
    fn init(self: Pin<&mut Self>) {
        let self_ptr = &self.value as *const String;
        // Safety: we are not moving the struct, only writing a pointer field.
        unsafe {
            self.get_unchecked_mut().pointer_to_value = self_ptr;
        }
    }

    fn get_value_via_pointer(self: Pin<&Self>) -> &str {
        unsafe { &*self.pointer_to_value }
    }
}

fn main() {
    // Pin using Box::pin — the safe, heap-based door.
    let mut a = Box::pin(SelfReferential::new("hello from A"));
    let mut b = Box::pin(SelfReferential::new("hello from B"));

    // Initialize the self-references now that the data is pinned.
    a.as_mut().init();
    b.as_mut().init();

    println!("a.value       = {:?}", a.value);
    println!("a via pointer = {:?}", a.as_ref().get_value_via_pointer());
    println!("b.value       = {:?}", b.value);
    println!("b via pointer = {:?}", b.as_ref().get_value_via_pointer());

    // -------------------------------------------------------
    // THE BOUNCER IN ACTION: Uncomment the line below.
    // It will NOT compile because Pin refuses to give you &mut T
    // for a !Unpin type, so std::mem::swap cannot work.
    // -------------------------------------------------------
    // std::mem::swap(&mut *a, &mut *b);  // ERROR: cannot borrow as mutable

    println!();
    println!("The swap line above does not compile.");
    println!("Pin's entire job is to prevent exactly that.");
}
"#;

/// The editable lines of `rs_02_bouncer`.
pub const BOUNCER_REGIONS: [(usize, usize); 1] = [(30, 35)];

/// The source of `rs_03_unpin`.
pub const UNPIN_ESCAPE_CODE: &'static str = r#"// ============================================================
// Example 3: Unpin Escape
// ============================================================
// i32, String, Vec — almost every type in Rust is Unpin.
// For Unpin types, Pin is transparent: you can call .get_mut()
// and do whatever you want. The bouncer steps aside.
//
// This is why Pin feels invisible in 99% of Rust code.
// ============================================================

use std::pin::Pin;

fn main() {
    // --- i32 is Unpin: Pin does nothing ---
    let mut num = 42_i32;
    let mut pinned_num = Pin::new(&mut num);

    // .get_mut() works because i32: Unpin
    *pinned_num.as_mut().get_mut() += 1;
    println!("pinned i32 = {}", pinned_num);  // 43

    // --- String is Unpin: Pin does nothing ---
    let mut text = String::from("hello");
    let mut pinned_text = Pin::new(&mut text);

    // Full &mut String access — push, replace, whatever you want.
    pinned_text.as_mut().get_mut().push_str(" world");
    println!("pinned String = {:?}", pinned_text);

    // --- Vec<u8> is Unpin: Pin does nothing ---
    let mut data = vec![1, 2, 3];
    let mut pinned_vec = Pin::new(&mut data);

    pinned_vec.as_mut().get_mut().push(4);
    println!("pinned Vec = {:?}", pinned_vec);

    // --- You can even swap Unpin types through Pin ---
    let mut x = 10;
    let mut y = 20;
    let mut pin_x = Pin::new(&mut x);
    let mut pin_y = Pin::new(&mut y);
    std::mem::swap(pin_x.as_mut().get_mut(), pin_y.as_mut().get_mut());
    println!("after swap: x = {}, y = {}", pin_x, pin_y);

    println!();
    println!("For Unpin types, Pin is completely transparent.");
    println!("The bouncer is on break.");
}
"#;

/// The editable lines of `rs_03_unpin`.
pub const UNPIN_ESCAPE_REGIONS: [(usize, usize); 1] = [(8, 16)];

/// The source of `rs_04_box_vs_stack`.
pub const BOX_VS_STACK_CODE: &'static str = r#"// ============================================================
// Example 4: Box::pin vs Stack Pin
// ============================================================
// Two ways to pin a !Unpin type:
//   1. Box::pin()  — safe, heap-allocated
//   2. Pin::new_unchecked() — unsafe, stack-allocated
//
// Both provide the same guarantee (data will not move).
// The difference is who is responsible for that promise.
// ============================================================

use std::future::Future;
use std::pin::Pin;
use std::task::{Context, Poll};

// A simple future that yields once, then completes.
struct YieldOnce {
    yielded: bool,
}

impl Future for YieldOnce {
    type Output = &'static str;

    fn poll(mut self: Pin<&mut Self>, _cx: &mut Context<'_>) -> Poll<Self::Output> {
        if self.yielded {
            Poll::Ready("done!")
        } else {
            self.yielded = true;
            Poll::Pending
        }
    }
}

fn main() {
    // ==========================================
    // Door 1: Box::pin() — the safe, easy way
    // ==========================================
    // The heap allocation IS the pinning guarantee.
    // Box::pin() does not require unsafe.
    let boxed: Pin<Box<YieldOnce>> = Box::pin(YieldOnce { yielded: false });
    println!("Box::pin created — safe, no unsafe needed");
    println!("  Type: Pin<Box<YieldOnce>>");
    println!("  Data lives on the heap at a fixed address");
    println!("  The Box pointer can move freely; the data cannot");
    println!();

    // ==========================================
    // Door 2: Stack pinning — the hard way
    // ==========================================
    // YOU promise the compiler the data will not move.
    // This requires unsafe because the compiler cannot verify it.
    let mut stack_future = YieldOnce { yielded: false };

    // Safety: we will not move `stack_future` after this point.
    // In real code, use tokio::pin!() instead of writing this yourself.
    let stack_pinned: Pin<&mut YieldOnce> = unsafe {
        Pin::new_unchecked(&mut stack_future)
    };
    println!("Stack pin created — requires unsafe");
    println!("  Type: Pin<&mut YieldOnce>");
    println!("  Data lives on the stack");
    println!("  YOU guarantee it will not move");
    println!();

    // Both can be polled the same way — the Pin guarantee is identical.
    // The difference is only who provides the guarantee: heap vs programmer.
    drop(boxed);
    drop(stack_pinned);

    println!("Both doors lead to the same guarantee.");
    println!("Box::pin = the heap does it for you (safe).");
    println!("Stack pin = you do it yourself (unsafe).");
    println!("In practice, use Box::pin() or tokio::pin!() macro.");
}
"#;

/// The editable lines of `rs_04_box_vs_stack`.
pub const BOX_VS_STACK_REGIONS: [(usize, usize); 1] = [(15, 30)];

/// The source of `rs_05_as_mut`.
pub const AS_MUT_REBORROW_CODE: &'static str = r#"// ============================================================
// Example 5: as_mut() Reborrow
// ============================================================
// Pin<&mut T> is NOT Copy (because &mut T is not Copy).
// If you pass it into a function, it is consumed — gone.
// .as_mut() reborrows the inner &mut T, giving you a fresh
// Pin<&mut T> with a shorter lifetime.
//
// This is the most common Pin mistake in real code.
// ============================================================

use std::future::Future;
use std::pin::Pin;
use std::task::{Context, Poll, RawWaker, RawWakerVTable, Waker};

// A future that counts down from N to 0.
struct Countdown {
    remaining: u32,
}

impl Future for Countdown {
    type Output = String;

    fn poll(mut self: Pin<&mut Self>, _cx: &mut Context<'_>) -> Poll<Self::Output> {
        if self.remaining == 0 {
            Poll::Ready("liftoff!".to_string())
        } else {
            println!("  countdown: {}", self.remaining);
            self.remaining -= 1;
            Poll::Pending
        }
    }
}

// A dummy waker that does nothing (for demonstration only).
fn dummy_waker() -> Waker {
    fn no_op(_: *const ()) {}
    fn clone(p: *const ()) -> RawWaker { RawWaker::new(p, &VTABLE) }
    static VTABLE: RawWakerVTable = RawWakerVTable::new(clone, no_op, no_op, no_op);
    unsafe { Waker::from_raw(RawWaker::new(std::ptr::null(), &VTABLE)) }
}

fn main() {
    let mut future = Box::pin(Countdown { remaining: 3 });
    let waker = dummy_waker();
    let mut cx = Context::from_waker(&waker);

    println!("=== Polling with .as_mut() ===");
    println!();

    // WITHOUT as_mut(), the first poll() would consume `future`.
    // The second poll() would fail to compile:
    //
    //   future.poll(&mut cx);  // future is MOVED here
    //   future.poll(&mut cx);  // ERROR: use of moved value
    //
    // WITH as_mut(), each call gets a temporary reborrowed Pin:
    loop {
        match future.as_mut().poll(&mut cx) {
            Poll::Pending => {
                // future is still usable because as_mut() only gave
                // a temporary Pin, not the original.
                continue;
            }
            Poll::Ready(msg) => {
                println!();
                println!("Result: {}", msg);
                break;
            }
        }
    }

    println!();
    println!(".as_mut() = temporary guest pass from the bouncer.");
    println!("Your permanent badge stays in the drawer.");
}
"#;

/// The editable lines of `rs_05_as_mut`.
pub const AS_MUT_REBORROW_REGIONS: [(usize, usize); 1] = [(22, 30)];

/// The source of `rs_06_structural`.
pub const STRUCTURAL_PINNING_CODE: &'static str = r#"// ============================================================
// Example 6: Structural Pinning
// ============================================================
// When you have Pin<&mut Struct>, how do you access fields?
// 
// The answer depends on whether the field needs to stay pinned:
//   - Pinned field (#[pin]): you get Pin<&mut Field>
//   - Unpinned field: you get &mut Field directly
//
// In real code, use the `pin-project` crate to generate these
// projections safely. Here we do it manually to show the mechanics.
// ============================================================

use std::future::Future;
use std::marker::PhantomPinned;
use std::pin::Pin;
use std::task::{Context, Poll, RawWaker, RawWakerVTable, Waker};

/// A struct with two fields:
///   - `label`: does NOT need pinning (just a String, Unpin)
///   - `inner`: DOES need pinning (it is a future, !Unpin)
struct LabeledFuture<F> {
    label: String,      // unpinned: safe to move, we get &mut String
    inner: F,           // pinned: must stay put, we get Pin<&mut F>
    _pin: PhantomPinned,
}

// Manual pin projection — this is what pin-project generates for you.
// In real code, you would write:
//   #[pin_project]
//   struct LabeledFuture<F> {
//       label: String,
//       #[pin] inner: F,
//   }
// and get these methods automatically.
impl<F: Future> LabeledFuture<F> {
    /// Project to the unpinned field: returns &mut String.
    /// Safe because String is Unpin — moving it cannot cause harm.
    fn label(self: Pin<&mut Self>) -> &mut String {
        // Safety: `label` is not structurally pinned.
        unsafe { &mut self.get_unchecked_mut().label }
    }

    /// Project to the pinned field: returns Pin<&mut F>.
    /// Unsafe because we must guarantee F stays pinned.
    fn inner(self: Pin<&mut Self>) -> Pin<&mut F> {
        // Safety: `inner` is structurally pinned — we never move it,
        // and dropping LabeledFuture does not move inner.
        unsafe { self.map_unchecked_mut(|s| &mut s.inner) }
    }
}

// A simple future for demonstration.
struct CountTo {
    current: u32,
    target: u32,
}

impl Future for CountTo {
    type Output = u32;

    fn poll(mut self: Pin<&mut Self>, _cx: &mut Context<'_>) -> Poll<u32> {
        self.current += 1;
        if self.current >= self.target {
            Poll::Ready(self.current)
        } else {
            Poll::Pending
        }
    }
}

fn dummy_waker() -> Waker {
    fn no_op(_: *const ()) {}
    fn clone(p: *const ()) -> RawWaker { RawWaker::new(p, &VTABLE) }
    static VTABLE: RawWakerVTable = RawWakerVTable::new(clone, no_op, no_op, no_op);
    unsafe { Waker::from_raw(RawWaker::new(std::ptr::null(), &VTABLE)) }
}

fn main() {
    let labeled = LabeledFuture {
        label: String::from("my-counter"),
        inner: CountTo { current: 0, target: 3 },
        _pin: PhantomPinned,
    };

    // Pin the whole struct on the heap.
    let mut pinned = Box::pin(labeled);
    let waker = dummy_waker();
    let mut cx = Context::from_waker(&waker);

    println!("=== Structural Pinning Demo ===");
    println!();

    // Access the unpinned field — we get &mut String.
    *pinned.as_mut().label() = String::from("renamed-counter");
    println!("Renamed label to: {:?}", &pinned.label);

    // Poll the pinned field — we get Pin<&mut CountTo>.
    loop {
        let label = pinned.label.clone();
        match pinned.as_mut().inner().poll(&mut cx) {
            Poll::Pending => println!("[{}] counting...", label),
            Poll::Ready(n) => {
                println!("[{}] reached {}", label, n);
                break;
            }
        }
    }

    println!();
    println!("Unpinned field (label) -> &mut String    (full access)");
    println!("Pinned field (inner)   -> Pin<&mut F>    (bouncer enforced)");
    println!("In practice, use #[pin_project] to generate this safely.");
}
"#;

/// The editable lines of `rs_06_structural`.
pub const STRUCTURAL_PINNING_REGIONS: [(usize, usize); 1] = [(20, 40)];

/// The source of `rs_07_poll`.
pub const POLL_BY_HAND_CODE: &'static str = r#"// ============================================================
// Example 7: Poll by Hand
// ============================================================
// A hand-written Future that simulates a multi-step operation.
// This is the call site that justifies Pin's existence:
//
//   fn poll(self: Pin<&mut Self>, cx: &mut Context) -> Poll<T>
//
// Notice: `self` is Pin<&mut Self>, not &mut self.
// The executor can advance the future but CANNOT move it.
// ============================================================

use std::future::Future;
use std::pin::Pin;
use std::task::{Context, Poll, RawWaker, RawWakerVTable, Waker};

/// A future that simulates fetching data in stages:
///   Stage 0: "connecting..."
///   Stage 1: "downloading..."
///   Stage 2: "parsing..."
///   Stage 3: Ready("data: {42}")
///
/// Each call to poll() advances one stage.
struct FetchData {
    stage: u8,
}

impl FetchData {
    fn new() -> Self {
        FetchData { stage: 0 }
    }
}

impl Future for FetchData {
    type Output = String;

    // THIS is why Pin exists in everyday Rust.
    // The signature forces `self` through the bouncer.
    // An executor calling poll() cannot swap or move the future.
    fn poll(mut self: Pin<&mut Self>, _cx: &mut Context<'_>) -> Poll<Self::Output> {
        match self.stage {
            0 => {
                println!("  [poll] stage 0: connecting...");
                self.stage = 1;
                Poll::Pending
            }
            1 => {
                println!("  [poll] stage 1: downloading...");
                self.stage = 2;
                Poll::Pending
            }
            2 => {
                println!("  [poll] stage 2: parsing...");
                self.stage = 3;
                Poll::Pending
            }
            _ => {
                println!("  [poll] stage 3: complete!");
                Poll::Ready(format!("data: {{{}}}", 42))
            }
        }
    }
}

fn dummy_waker() -> Waker {
    fn no_op(_: *const ()) {}
    fn clone(p: *const ()) -> RawWaker { RawWaker::new(p, &VTABLE) }
    static VTABLE: RawWakerVTable = RawWakerVTable::new(clone, no_op, no_op, no_op);
    unsafe { Waker::from_raw(RawWaker::new(std::ptr::null(), &VTABLE)) }
}

fn main() {
    // Pin the future on the heap.
    let mut future = Box::pin(FetchData::new());
    let waker = dummy_waker();
    let mut cx = Context::from_waker(&waker);

    println!("=== Manual Polling Loop ===");
    println!("This is what tokio/async-std do internally.");
    println!();

    let mut poll_count = 0;
    let result = loop {
        poll_count += 1;
        println!("--- poll #{} ---", poll_count);

        // .as_mut() reborrows so we can poll multiple times.
        match future.as_mut().poll(&mut cx) {
            Poll::Pending => {
                println!("  -> Pending (future is not done yet)");
                println!();
                // In a real executor, we would park the task here
                // and wake it when an I/O event fires.
            }
            Poll::Ready(data) => {
                println!("  -> Ready!");
                break data;
            }
        }
    };

    println!();
    println!("Final result: {}", result);
    println!("Polled {} times total.", poll_count);
    println!();
    println!("Key insight: every poll() call received Pin<&mut Self>.");
    println!("The executor advanced the future without ever getting &mut Self.");
    println!("That is Pin's entire purpose.");
}
"#;

/// The editable lines of `rs_07_poll`.
pub const POLL_BY_HAND_REGIONS: [(usize, usize); 1] = [(15, 35)];

/// The source of `rs_08_disaster`.
pub const DISASTER_CODE: &'static str = r#"// ============================================================
// Example 8: The Disaster
// ============================================================
// This code deliberately violates Pin's contract using unsafe.
// We create a pinned self-referential struct, then use
// get_unchecked_mut() to extract &mut T and swap the memory.
//
// In release mode, the optimizer may rearrange things so the
// corrupted pointer causes a segfault or garbage output.
// THIS IS UNDEFINED BEHAVIOR. Do not do this in real code.
//
// The point: Pin is not a magic wall. It is a contract.
// unsafe lets you break the contract, and the consequences
// are your responsibility.
// ============================================================

use std::marker::PhantomPinned;
use std::pin::Pin;
use std::ptr;

struct SelfRef {
    data: String,
    ptr: *const String,
    _pin: PhantomPinned,
}

impl SelfRef {
    fn new(text: &str) -> Pin<Box<Self>> {
        let mut boxed = Box::pin(SelfRef {
            data: String::from(text),
            ptr: ptr::null(),
            _pin: PhantomPinned,
        });
        let self_ptr = &boxed.data as *const String;
        unsafe {
            boxed.as_mut().get_unchecked_mut().ptr = self_ptr;
        }
        boxed
    }

    fn data_via_pointer(&self) -> &str {
        assert!(!self.ptr.is_null(), "pointer not initialized");
        unsafe { &*self.ptr }
    }
}

fn main() {
    let mut a = SelfRef::new("AAAA");
    let mut b = SelfRef::new("BBBB");

    println!("=== BEFORE the violation ===");
    println!("a.data         = {:?}", a.data);
    println!("a via pointer  = {:?}", a.data_via_pointer());
    println!("b.data         = {:?}", b.data);
    println!("b via pointer  = {:?}", b.data_via_pointer());
    println!("  (everything matches — pointers are correct)");
    println!();

    // ============================================================
    // THE VIOLATION: We bypass Pin using get_unchecked_mut()
    // and swap the two structs. This is unsound.
    // The internal pointers now point to the wrong memory.
    // ============================================================
    unsafe {
        let a_mut: &mut SelfRef = Pin::get_unchecked_mut(a.as_mut());
        let b_mut: &mut SelfRef = Pin::get_unchecked_mut(b.as_mut());
        std::mem::swap(a_mut, b_mut);
    }

    println!("=== AFTER the violation ===");
    println!("a.data         = {:?}", a.data);
    println!("a via pointer  = {:?}", a.data_via_pointer());
    println!("  ^ MISMATCH! The pointer followed the swap but still");
    println!("    points to the old Box allocation.");
    println!("b.data         = {:?}", b.data);
    println!("b via pointer  = {:?}", b.data_via_pointer());
    println!("  ^ Same problem. Both pointers are stale.");
    println!();
    println!("This is UNDEFINED BEHAVIOR.");
    println!("In release mode with real async state machines,");
    println!("this kind of corruption causes segfaults, garbage");
    println!("data, or silent memory corruption.");
    println!();
    println!("Pin is a contract. unsafe lets you break it.");
    println!("The consequences are always your responsibility.");
}
"#;

/// The editable lines of `rs_08_disaster`.
pub const DISASTER_REGIONS: [(usize, usize); 1] = [(30, 42)];

/// The source of `js_01_event_loop`, which is not bundled with the catalogue.
pub const EVENT_LOOP_CODE: &'static str = "";

/// The editable lines of `js_01_event_loop`.
pub const EVENT_LOOP_REGIONS: [(usize, usize); 1] = [(15, 35)];

/// The source of `js_02_closures`, which is not bundled with the catalogue.
pub const CLOSURES_CODE: &'static str = "";

/// The editable lines of `js_02_closures`.
pub const CLOSURES_REGIONS: [(usize, usize); 1] = [(14, 30)];

/// The source of `js_03_prototypes`, which is not bundled with the catalogue.
pub const PROTOTYPES_CODE: &'static str = "";

/// The editable lines of `js_03_prototypes`.
pub const PROTOTYPES_REGIONS: [(usize, usize); 1] = [(18, 40)];

/// The source of `js_04_coercion`, which is not bundled with the catalogue.
pub const COERCION_CODE: &'static str = "";

/// The editable lines of `js_04_coercion`.
pub const COERCION_REGIONS: [(usize, usize); 1] = [(12, 30)];

/// The source of `go_01_goroutines`, which is not bundled with the catalogue.
pub const GOROUTINES_CODE: &'static str = "";

/// The editable lines of `go_01_goroutines`.
pub const GOROUTINES_REGIONS: [(usize, usize); 1] = [(25, 45)];

/// The source of `go_02_interfaces`, which is not bundled with the catalogue.
pub const INTERFACES_CODE: &'static str = "";

/// The editable lines of `go_02_interfaces`.
pub const INTERFACES_REGIONS: [(usize, usize); 1] = [(20, 50)];

/// The source of `go_03_errors`, which is not bundled with the catalogue.
pub const ERROR_HANDLING_CODE: &'static str = "";

/// The editable lines of `go_03_errors`.
pub const ERROR_HANDLING_REGIONS: [(usize, usize); 1] = [(20, 45)];

/// The Rust examples, in order.
pub open spec fn rust_catalogue() -> Seq<Example> {
    seq![

        Example {
            id: "rs_01_crime_scene",
            title: "The Crime Scene",
            section: "the-crime-scene",
            description: "A self-referential struct that corrupts after std::mem::swap.",
            code: CRIME_SCENE_CODE,
            editable_regions: &CRIME_SCENE_REGIONS,
            mode: "debug",
            language: Language::Rust,
            expected_behavior: ExpectedBehavior::RuntimeCorruption,
        },

        Example {
            id: "rs_02_bouncer",
            title: "The Bouncer",
            section: "the-bouncer",
            description: "Pin prevents the swap — the compiler error IS the lesson.",
            code: BOUNCER_CODE,
            editable_regions: &BOUNCER_REGIONS,
            mode: "debug",
            language: Language::Rust,
            expected_behavior: ExpectedBehavior::CompileError,
        },

        Example {
            id: "rs_03_unpin",
            title: "Unpin Escape",
            section: "the-rebellion",
            description: "Unpin types pass through Pin freely. The bouncer steps aside.",
            code: UNPIN_ESCAPE_CODE,
            editable_regions: &UNPIN_ESCAPE_REGIONS,
            mode: "debug",
            language: Language::Rust,
            expected_behavior: ExpectedBehavior::Success,
        },

        Example {
            id: "rs_04_box_vs_stack",
            title: "Box::pin vs Stack",
            section: "the-two-doors",
            description: "Two doors into Pin: Box::pin (safe, heap) vs manual (unsafe, stack).",
            code: BOX_VS_STACK_CODE,
            editable_regions: &BOX_VS_STACK_REGIONS,
            mode: "debug",
            language: Language::Rust,
            expected_behavior: ExpectedBehavior::Success,
        },

        Example {
            id: "rs_05_as_mut",
            title: "as_mut() Reborrow",
            section: "as_mut",
            description: "The most common Pin mistake: forgetting .as_mut() consumes the Pin.",
            code: AS_MUT_REBORROW_CODE,
            editable_regions: &AS_MUT_REBORROW_REGIONS,
            mode: "debug",
            language: Language::Rust,
            expected_behavior: ExpectedBehavior::Success,
        },

        Example {
            id: "rs_06_structural",
            title: "Structural Pinning",
            section: "structural-pinning",
            description: "Accessing fields inside a pinned struct with pin-project.",
            code: STRUCTURAL_PINNING_CODE,
            editable_regions: &STRUCTURAL_PINNING_REGIONS,
            mode: "debug",
            language: Language::Rust,
            expected_behavior: ExpectedBehavior::Success,
        },

        Example {
            id: "rs_07_poll",
            title: "Poll by Hand",
            section: "future-poll",
            description: "A hand-written Future with manual polling. Pin<&mut Self> in action.",
            code: POLL_BY_HAND_CODE,
            editable_regions: &POLL_BY_HAND_REGIONS,
            mode: "debug",
            language: Language::Rust,
            expected_behavior: ExpectedBehavior::Success,
        },

        Example {
            id: "rs_08_disaster",
            title: "The Disaster",
            section: "the-disaster",
            description: "Deliberately violates Pin's contract. Undefined behavior.",
            code: DISASTER_CODE,
            editable_regions: &DISASTER_REGIONS,
            mode: "release",
            language: Language::Rust,
            expected_behavior: ExpectedBehavior::UndefinedBehavior,
        },

    ]
}

/// The Rust examples, in order.
pub fn rust_examples() -> (r: Vec<Example>)
    ensures
        r@ == rust_catalogue(),
{
    let v: Vec<Example> = vec![

        Example {
            id: "rs_01_crime_scene",
            title: "The Crime Scene",
            section: "the-crime-scene",
            description: "A self-referential struct that corrupts after std::mem::swap.",
            code: CRIME_SCENE_CODE,
            editable_regions: &CRIME_SCENE_REGIONS,
            mode: "debug",
            language: Language::Rust,
            expected_behavior: ExpectedBehavior::RuntimeCorruption,
        },

        Example {
            id: "rs_02_bouncer",
            title: "The Bouncer",
            section: "the-bouncer",
            description: "Pin prevents the swap — the compiler error IS the lesson.",
            code: BOUNCER_CODE,
            editable_regions: &BOUNCER_REGIONS,
            mode: "debug",
            language: Language::Rust,
            expected_behavior: ExpectedBehavior::CompileError,
        },

        Example {
            id: "rs_03_unpin",
            title: "Unpin Escape",
            section: "the-rebellion",
            description: "Unpin types pass through Pin freely. The bouncer steps aside.",
            code: UNPIN_ESCAPE_CODE,
            editable_regions: &UNPIN_ESCAPE_REGIONS,
            mode: "debug",
            language: Language::Rust,
            expected_behavior: ExpectedBehavior::Success,
        },

        Example {
            id: "rs_04_box_vs_stack",
            title: "Box::pin vs Stack",
            section: "the-two-doors",
            description: "Two doors into Pin: Box::pin (safe, heap) vs manual (unsafe, stack).",
            code: BOX_VS_STACK_CODE,
            editable_regions: &BOX_VS_STACK_REGIONS,
            mode: "debug",
            language: Language::Rust,
            expected_behavior: ExpectedBehavior::Success,
        },

        Example {
            id: "rs_05_as_mut",
            title: "as_mut() Reborrow",
            section: "as_mut",
            description: "The most common Pin mistake: forgetting .as_mut() consumes the Pin.",
            code: AS_MUT_REBORROW_CODE,
            editable_regions: &AS_MUT_REBORROW_REGIONS,
            mode: "debug",
            language: Language::Rust,
            expected_behavior: ExpectedBehavior::Success,
        },

        Example {
            id: "rs_06_structural",
            title: "Structural Pinning",
            section: "structural-pinning",
            description: "Accessing fields inside a pinned struct with pin-project.",
            code: STRUCTURAL_PINNING_CODE,
            editable_regions: &STRUCTURAL_PINNING_REGIONS,
            mode: "debug",
            language: Language::Rust,
            expected_behavior: ExpectedBehavior::Success,
        },

        Example {
            id: "rs_07_poll",
            title: "Poll by Hand",
            section: "future-poll",
            description: "A hand-written Future with manual polling. Pin<&mut Self> in action.",
            code: POLL_BY_HAND_CODE,
            editable_regions: &POLL_BY_HAND_REGIONS,
            mode: "debug",
            language: Language::Rust,
            expected_behavior: ExpectedBehavior::Success,
        },

        Example {
            id: "rs_08_disaster",
            title: "The Disaster",
            section: "the-disaster",
            description: "Deliberately violates Pin's contract. Undefined behavior.",
            code: DISASTER_CODE,
            editable_regions: &DISASTER_REGIONS,
            mode: "release",
            language: Language::Rust,
            expected_behavior: ExpectedBehavior::UndefinedBehavior,
        },

    ];
    assert(v@ =~= rust_catalogue());
    v
}

/// The JavaScript examples, in order.
pub open spec fn js_catalogue() -> Seq<Example> {
    seq![

        Example {
            id: "js_01_event_loop",
            title: "The Event Loop",
            section: "event-loop",
            description: "Microtasks, macrotasks, and the illusion of concurrency. Compare with Rust's state machines.",
            code: EVENT_LOOP_CODE,
            editable_regions: &EVENT_LOOP_REGIONS,
            mode: "interpret",
            language: Language::JavaScript,
            expected_behavior: ExpectedBehavior::Success,
        },

        Example {
            id: "js_02_closures",
            title: "Closures & The Loop Trap",
            section: "closures",
            description: "Closures capture by reference, not value. The classic var/let bug Rust prevents at compile time.",
            code: CLOSURES_CODE,
            editable_regions: &CLOSURES_REGIONS,
            mode: "interpret",
            language: Language::JavaScript,
            expected_behavior: ExpectedBehavior::Success,
        },

        Example {
            id: "js_03_prototypes",
            title: "Prototypal Inheritance",
            section: "prototypes",
            description: "How JS objects really work. Prototype chains are like Rust's vtables for trait objects.",
            code: PROTOTYPES_CODE,
            editable_regions: &PROTOTYPES_REGIONS,
            mode: "interpret",
            language: Language::JavaScript,
            expected_behavior: ExpectedBehavior::Success,
        },

        Example {
            id: "js_04_coercion",
            title: "Type Coercion",
            section: "coercion",
            description: "The weird parts of JS, explained systematically. [] == ![] is not random — it follows rules.",
            code: COERCION_CODE,
            editable_regions: &COERCION_REGIONS,
            mode: "interpret",
            language: Language::JavaScript,
            expected_behavior: ExpectedBehavior::Success,
        },

    ]
}

/// The JavaScript examples, in order.
pub fn js_examples() -> (r: Vec<Example>)
    ensures
        r@ == js_catalogue(),
{
    let v: Vec<Example> = vec![

        Example {
            id: "js_01_event_loop",
            title: "The Event Loop",
            section: "event-loop",
            description: "Microtasks, macrotasks, and the illusion of concurrency. Compare with Rust's state machines.",
            code: EVENT_LOOP_CODE,
            editable_regions: &EVENT_LOOP_REGIONS,
            mode: "interpret",
            language: Language::JavaScript,
            expected_behavior: ExpectedBehavior::Success,
        },

        Example {
            id: "js_02_closures",
            title: "Closures & The Loop Trap",
            section: "closures",
            description: "Closures capture by reference, not value. The classic var/let bug Rust prevents at compile time.",
            code: CLOSURES_CODE,
            editable_regions: &CLOSURES_REGIONS,
            mode: "interpret",
            language: Language::JavaScript,
            expected_behavior: ExpectedBehavior::Success,
        },

        Example {
            id: "js_03_prototypes",
            title: "Prototypal Inheritance",
            section: "prototypes",
            description: "How JS objects really work. Prototype chains are like Rust's vtables for trait objects.",
            code: PROTOTYPES_CODE,
            editable_regions: &PROTOTYPES_REGIONS,
            mode: "interpret",
            language: Language::JavaScript,
            expected_behavior: ExpectedBehavior::Success,
        },

        Example {
            id: "js_04_coercion",
            title: "Type Coercion",
            section: "coercion",
            description: "The weird parts of JS, explained systematically. [] == ![] is not random — it follows rules.",
            code: COERCION_CODE,
            editable_regions: &COERCION_REGIONS,
            mode: "interpret",
            language: Language::JavaScript,
            expected_behavior: ExpectedBehavior::Success,
        },

    ];
    assert(v@ =~= js_catalogue());
    v
}

/// The Go examples, in order.
pub open spec fn go_catalogue() -> Seq<Example> {
    seq![

        Example {
            id: "go_01_goroutines",
            title: "Goroutines & Channels",
            section: "goroutines",
            description: "Go's runtime concurrency vs Rust's compile-time state machines. Two different worlds.",
            code: GOROUTINES_CODE,
            editable_regions: &GOROUTINES_REGIONS,
            mode: "run",
            language: Language::Go,
            expected_behavior: ExpectedBehavior::Success,
        },

        Example {
            id: "go_02_interfaces",
            title: "Interfaces",
            section: "interfaces",
            description: "Implicit interface satisfaction — Go's answer to Rust traits, without the explicit impl.",
            code: INTERFACES_CODE,
            editable_regions: &INTERFACES_REGIONS,
            mode: "run",
            language: Language::Go,
            expected_behavior: ExpectedBehavior::Success,
        },

        Example {
            id: "go_03_errors",
            title: "Error Handling",
            section: "errors",
            description: "if err != nil vs Result<T, E>. Same philosophy (explicit), different enforcement.",
            code: ERROR_HANDLING_CODE,
            editable_regions: &ERROR_HANDLING_REGIONS,
            mode: "run",
            language: Language::Go,
            expected_behavior: ExpectedBehavior::Success,
        },

    ]
}

/// The Go examples, in order.
pub fn go_examples() -> (r: Vec<Example>)
    ensures
        r@ == go_catalogue(),
{
    let v: Vec<Example> = vec![

        Example {
            id: "go_01_goroutines",
            title: "Goroutines & Channels",
            section: "goroutines",
            description: "Go's runtime concurrency vs Rust's compile-time state machines. Two different worlds.",
            code: GOROUTINES_CODE,
            editable_regions: &GOROUTINES_REGIONS,
            mode: "run",
            language: Language::Go,
            expected_behavior: ExpectedBehavior::Success,
        },

        Example {
            id: "go_02_interfaces",
            title: "Interfaces",
            section: "interfaces",
            description: "Implicit interface satisfaction — Go's answer to Rust traits, without the explicit impl.",
            code: INTERFACES_CODE,
            editable_regions: &INTERFACES_REGIONS,
            mode: "run",
            language: Language::Go,
            expected_behavior: ExpectedBehavior::Success,
        },

        Example {
            id: "go_03_errors",
            title: "Error Handling",
            section: "errors",
            description: "if err != nil vs Result<T, E>. Same philosophy (explicit), different enforcement.",
            code: ERROR_HANDLING_CODE,
            editable_regions: &ERROR_HANDLING_REGIONS,
            mode: "run",
            language: Language::Go,
            expected_behavior: ExpectedBehavior::Success,
        },

    ];
    assert(v@ =~= go_catalogue());
    v
}

/// Every example: the Rust ones, then the JavaScript ones, then the Go ones.
pub fn all_examples() -> (r: Vec<Example>)
    ensures
        r@ == rust_catalogue() + js_catalogue() + go_catalogue(),
{
    let mut all: Vec<Example> = Vec::new();
    let mut rust = rust_examples();
    let mut js = js_examples();
    let mut go = go_examples();
    all.append(&mut rust);
    all.append(&mut js);
    all.append(&mut go);
    all
}


impl Language {
    /// The language's name: `rust`, `javascript` or `go`.
    pub open spec fn name(self) -> &'static str {
        match self {
            Language::Rust => "rust",
            Language::JavaScript => "javascript",
            Language::Go => "go",
        }
    }

    /// The edition the language's code is cached under: `2021`, `es2023`
    /// or `go`.
    pub open spec fn edition(self) -> &'static str {
        match self {
            Language::Rust => "2021",
            Language::JavaScript => "es2023",
            Language::Go => "go",
        }
    }

    /// The language's name.
    pub fn as_str(&self) -> (r: &'static str)
        ensures
            r == self.name(),
    {
        match self {
            Language::Rust => "rust",
            Language::JavaScript => "javascript",
            Language::Go => "go",
        }
    }

    /// The edition the language's code is cached under.
    pub fn edition_str(&self) -> (r: &'static str)
        ensures
            r == self.edition(),
    {
        match self {
            Language::Rust => "2021",
            Language::JavaScript => "es2023",
            Language::Go => "go",
        }
    }
}

/// The language a listing query names: `rust`, `javascript` or `js`, `go`.
pub open spec fn query_language(q: Seq<char>) -> Option<Language> {
    if q == "rust"@ {
        Some(Language::Rust)
    } else if q == "javascript"@ || q == "js"@ {
        Some(Language::JavaScript)
    } else if q == "go"@ {
        Some(Language::Go)
    } else {
        None
    }
}

/// The language a listing query names, if any.
pub fn language_from_query(q: &str) -> (r: Option<Language>)
    ensures
        r == query_language(q@),
{
    if same_text(q, "rust") {
        Some(Language::Rust)
    } else if same_text(q, "javascript") || same_text(q, "js") {
        Some(Language::JavaScript)
    } else if same_text(q, "go") {
        Some(Language::Go)
    } else {
        None
    }
}

/// The examples of language `l`, in order.
pub open spec fn of_language(examples: Seq<Example>, l: Language) -> Seq<Example>
    decreases examples.len(),
{
    if examples.len() == 0 {
        examples
    } else {
        let rest = of_language(examples.drop_last(), l);
        if examples.last().language == l {
            rest.push(examples.last())
        } else {
            rest
        }
    }
}

/// The examples a listing shows: those of the language the query names,
/// or all of them when there is no query or it names no language.
pub open spec fn listing(examples: Seq<Example>, lang: Option<Seq<char>>) -> Seq<Example> {
    match lang {
        Some(q) => match query_language(q) {
            Some(l) => of_language(examples, l),
            None => examples,
        },
        None => examples,
    }
}

/// The examples to list for the optional `lang` query.
pub fn filter_examples(examples: &[Example], lang: Option<&str>) -> (r: Vec<Example>)
    ensures
        r@ == listing(
            examples@,
            match lang {
                Some(q) => Some(q@),
                None => None,
            },
        ),
{
    let target = match lang {
        Some(q) => language_from_query(q),
        None => None,
    };
    let mut out: Vec<Example> = Vec::new();
    let mut i: usize = 0;
    while i < examples.len()
        invariant
            i <= examples@.len(),
            out@ == match target {
                Some(l) => of_language(examples@.take(i as int), l),
                None => examples@.take(i as int),
            },
        decreases examples@.len() - i,
    {
        assert(examples@.take(i + 1).drop_last() =~= examples@.take(i as int));
        assert(examples@.take(i + 1).last() == examples@[i as int]);
        let e = examples[i];
        match target {
            Some(l) => {
                if e.language == l {
                    out.push(e);
                }
            },
            None => {
                out.push(e);
                assert(out@ =~= examples@.take(i + 1));
            },
        }
        i = i + 1;
    }
    assert(examples@.take(examples@.len() as int) =~= examples@);
    out
}

/// The first example with id `id`.
pub open spec fn example_with_id(examples: Seq<Example>, id: Seq<char>) -> Option<Example>
    decreases examples.len(),
{
    if examples.len() == 0 {
        None
    } else if examples[0].id@ == id {
        Some(examples[0])
    } else {
        example_with_id(examples.drop_first(), id)
    }
}

/// The first example with id `id`, if any.
pub fn find_example(examples: &[Example], id: &str) -> (r: Option<Example>)
    ensures
        r == example_with_id(examples@, id@),
{
    let mut i: usize = 0;
    assert(examples@.skip(0) =~= examples@);
    while i < examples.len()
        invariant
            i <= examples@.len(),
            example_with_id(examples@, id@) == example_with_id(examples@.skip(i as int), id@),
        decreases examples@.len() - i,
    {
        let ghost rest = examples@.skip(i as int);
        assert(rest[0] == examples@[i as int]);
        if same_text(examples[i].id, id) {
            return Some(examples[i]);
        }
        assert(rest.drop_first() =~= examples@.skip(i + 1));
        i = i + 1;
    }
    None
}

/// The screening verdict for code in `language`.
pub open spec fn screening_verdict(language: Language, code: Seq<char>) -> Result<(), &'static str> {
    match language {
        Language::Rust => crate::security::rust_code_verdict(code),
        Language::JavaScript => crate::js_runner::js_code_verdict(code),
        Language::Go => crate::go_proxy::go_code_verdict(code),
    }
}

/// Screens submitted code by the rules of its language.
pub fn sanitize_for(language: Language, code: &str) -> (r: Result<(), &'static str>)
    ensures
        r == screening_verdict(language, code@),
{
    match language {
        Language::Rust => sanitize_code(code),
        Language::JavaScript => sanitize_js(code),
        Language::Go => sanitize_go(code),
    }
}


/// The language letter and number that tell the example with id `id` apart.
spec fn id_tag(id: Seq<char>) -> (char, char) {
    (id[0], id[4])
}

/// No two examples share an id, so an id names one example.
pub proof fn lemma_example_ids_distinct()
    ensures
        forall|i: int, j: int|
            0 <= i < j < (rust_catalogue() + js_catalogue() + go_catalogue()).len() ==> (
            #[trigger] (rust_catalogue() + js_catalogue() + go_catalogue())[i]).id@ != (
            #[trigger] (rust_catalogue() + js_catalogue() + go_catalogue())[j]).id@,
{
    reveal_strlit("rs_01_crime_scene");
    reveal_strlit("rs_02_bouncer");
    reveal_strlit("rs_03_unpin");
    reveal_strlit("rs_04_box_vs_stack");
    reveal_strlit("rs_05_as_mut");
    reveal_strlit("rs_06_structural");
    reveal_strlit("rs_07_poll");
    reveal_strlit("rs_08_disaster");
    reveal_strlit("js_01_event_loop");
    reveal_strlit("js_02_closures");
    reveal_strlit("js_03_prototypes");
    reveal_strlit("js_04_coercion");
    reveal_strlit("go_01_goroutines");
    reveal_strlit("go_02_interfaces");
    reveal_strlit("go_03_errors");
    let c = rust_catalogue() + js_catalogue() + go_catalogue();
    assert(c.len() == 15);
    assert forall|i: int, j: int| 0 <= i < j < c.len() implies #[trigger] c[i].id@ != #[trigger] c[j].id@ by {
        assert(id_tag(c[0].id@) == ('r', '1'));
        assert(id_tag(c[1].id@) == ('r', '2'));
        assert(id_tag(c[2].id@) == ('r', '3'));
        assert(id_tag(c[3].id@) == ('r', '4'));
        assert(id_tag(c[4].id@) == ('r', '5'));
        assert(id_tag(c[5].id@) == ('r', '6'));
        assert(id_tag(c[6].id@) == ('r', '7'));
        assert(id_tag(c[7].id@) == ('r', '8'));
        assert(id_tag(c[8].id@) == ('j', '1'));
        assert(id_tag(c[9].id@) == ('j', '2'));
        assert(id_tag(c[10].id@) == ('j', '3'));
        assert(id_tag(c[11].id@) == ('j', '4'));
        assert(id_tag(c[12].id@) == ('g', '1'));
        assert(id_tag(c[13].id@) == ('g', '2'));
        assert(id_tag(c[14].id@) == ('g', '3'));
        assert(id_tag(c[i].id@) != id_tag(c[j].id@));
    }
}

} // verus!
