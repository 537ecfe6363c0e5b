use no_drop::container::{Memory, NoDrop};
use std::cell::Cell;
use std::rc::Rc;

struct Counted {
    drops: Rc<Cell<u32>>,
}

impl Drop for Counted {
    fn drop(&mut self) {
        self.drops.set(self.drops.get() + 1);
    }
}

fn counted(drops: &Rc<Cell<u32>>) -> Counted {
    Counted { drops: Rc::clone(drops) }
}

#[test]
fn dropping_container_skips_destructor() {
    let drops = Rc::new(Cell::new(0));
    {
        let c = NoDrop::new(counted(&drops));
        assert_eq!(c.get().drops.get(), 0);
    }
    assert_eq!(drops.get(), 0);
    drop(NoDrop::new(counted(&drops)));
    assert_eq!(drops.get(), 0);
}

#[test]
fn dropping_memory_skips_destructors() {
    let drops = Rc::new(Cell::new(0));
    {
        let mut m: Memory<Counted> = Memory::new();
        m.place(NoDrop::new(counted(&drops)));
        m.place(NoDrop::new(counted(&drops)));
    }
    assert_eq!(drops.get(), 0);
}

#[test]
fn explicit_take_then_drop_runs_destructor() {
    let drops = Rc::new(Cell::new(0));
    let mut m: Memory<Counted> = Memory::new();
    let a = m.place(NoDrop::new(counted(&drops)));
    let v = m.take(a);
    assert_eq!(drops.get(), 0);
    drop(v);
    assert_eq!(drops.get(), 1);
    drop(m);
    assert_eq!(drops.get(), 1);
}

fn fails_while_holding(drops: &Rc<Cell<u32>>) -> Result<u32, String> {
    let _held = NoDrop::new(counted(drops));
    let n: u32 = "not a number".parse::<u32>().map_err(|e| e.to_string())?;
    Ok(n)
}

#[test]
fn error_propagation_skips_destructor() {
    let drops = Rc::new(Cell::new(0));
    assert!(fails_while_holding(&drops).is_err());
    assert_eq!(drops.get(), 0);
}
