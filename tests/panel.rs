use sliders::accessor::{
    decimal, read_output, set_command_line, AccessError, CommandRunner, MemoryAccessor, SetterGetter,
};
use sliders::args::parse_args;
use sliders::panel::{action_for, seeded, Action, ConfigError, Key, Sliders, StartError};
use sliders::render::{glyph, label, layout, Mark, Write};
use sliders::slider::{command_line_slider, lowered, raised, Slider};

fn memory_slider(name: &str, value: u8) -> Slider<MemoryAccessor> {
    Slider { name: name.to_string(), setter_getter: MemoryAccessor::new(value), current: value }
}

fn memory_panel(values: &[u8]) -> Sliders<MemoryAccessor> {
    let names = ["a", "b", "c", "d"];
    Sliders {
        sliders: values.iter().enumerate().map(|(i, v)| memory_slider(names[i], *v)).collect(),
        clear: false,
        coordinates_percent: (0, 0),
        size_percent: (100, 100),
        current: 0,
    }
}

/// Answers `echo N` with `N` and a newline, and prints nothing for anything else.
#[derive(Clone, Copy)]
struct Echo;

impl CommandRunner for Echo {
    fn run(&mut self, command: &str) -> Result<String, AccessError> {
        match command.strip_prefix("echo ") {
            Some(rest) => Ok(format!("{}\n", rest)),
            None => Ok(String::new()),
        }
    }
}

/// Keeps a value: `get` prints it, and a command `set N` stores `N`. Every
/// command is recorded.
struct Recorder {
    commands: Vec<String>,
    value: u8,
}

impl CommandRunner for Recorder {
    fn run(&mut self, command: &str) -> Result<String, AccessError> {
        self.commands.push(command.to_string());
        if command == "get" {
            Ok(format!("{}\n", self.value))
        } else if let Some(v) = command.strip_prefix("set ") {
            self.value = v.trim().parse().unwrap();
            Ok(String::new())
        } else {
            Err(AccessError::Failed(command.to_string()))
        }
    }
}

/// An accessor whose source cannot be reached.
struct Broken;

impl SetterGetter for Broken {
    fn get(&mut self) -> Result<u8, AccessError> {
        Err(AccessError::Failed("down".to_string()))
    }

    fn set(&mut self, _value: u8) -> Result<(), AccessError> {
        Err(AccessError::Failed("down".to_string()))
    }
}

fn strings(v: &[&str]) -> Vec<String> {
    v.iter().map(|s| s.to_string()).collect()
}

#[test]
fn two_sliders_focus_and_steps() {
    let mut p = memory_panel(&[0, 100]);
    assert_eq!(layout(40, 24, (0, 0), (100, 100), 2).margin, 2);
    assert_eq!(p.prompt(Key::Char('l'), false), Ok(Action::Next));
    assert_eq!(p.current, 1);
    assert_eq!(p.prompt(Key::Char('k'), false), Ok(Action::Raise(1)));
    assert_eq!(p.sliders[1].current, 100);
    assert_eq!(p.sliders[1].setter_getter.value, 100);
    assert_eq!(p.prompt(Key::Char('j'), false), Ok(Action::Lower(1)));
    assert_eq!(p.sliders[1].current, 99);
    assert_eq!(p.sliders[1].setter_getter.value, 99);
    assert_eq!(p.sliders[0].current, 0);
}

#[test]
fn get_output_with_newline_initializes() {
    assert_eq!(read_output("42\n"), Ok(42));
    let mut s = command_line_slider("v".to_string(), "echo 42".to_string(), "true".to_string(), Echo);
    assert_eq!(s.current, 25);
    assert_eq!(s.initialize(), Ok(()));
    assert_eq!(s.current, 42);
}

#[test]
fn command_line_slider_from_arguments_steps_by_ten() {
    let args = strings(&["--name", "vol", "--get", "echo 10", "--set", "amixer set {} "]);
    let mut p = Sliders::from_args(&args, Echo).unwrap().unwrap();
    assert_eq!(p.sliders.len(), 1);
    assert_eq!(p.sliders[0].name, "vol");
    assert_eq!(p.sliders[0].current, 10);
    assert_eq!(p.prompt(Key::Char('u'), true), Ok(Action::Raise(10)));
    assert_eq!(p.sliders[0].current, 20);
    assert_eq!(set_command_line("amixer set {} ", 20), "amixer set 20 ");
}

#[test]
fn ctrl_u_issues_set_with_twenty() {
    let runner = Recorder { commands: Vec::new(), value: 10 };
    let mut s = command_line_slider("vol".to_string(), "get".to_string(), "set {}".to_string(), runner);
    s.initialize().unwrap();
    assert_eq!(s.current, 10);
    let mut p = Sliders { sliders: vec![s], clear: false, coordinates_percent: (0, 0), size_percent: (100, 100), current: 0 };
    assert_eq!(p.prompt(Key::Char('u'), true), Ok(Action::Raise(10)));
    assert_eq!(p.sliders[0].current, 20);
    assert_eq!(p.sliders[0].setter_getter.runner.commands, strings(&["get", "get", "set 20"]));
}

#[test]
fn increment_past_limit_is_rejected() {
    let mut s = memory_slider("a", 95);
    assert_eq!(s.inc(10), Ok(()));
    assert_eq!(s.current, 95);
    assert_eq!(s.setter_getter.value, 95);
    assert_eq!(s.inc(5), Ok(()));
    assert_eq!(s.current, 100);
    assert_eq!(raised(95, 10), None);
    assert_eq!(raised(95, 5), Some(100));
    assert_eq!(raised(250, 10), None);
}

#[test]
fn decrement_below_zero_is_rejected() {
    let mut s = memory_slider("a", 5);
    assert_eq!(s.dec(10), Ok(()));
    assert_eq!(s.current, 5);
    assert_eq!(s.dec(5), Ok(()));
    assert_eq!(s.current, 0);
    assert_eq!(lowered(5, 10), None);
    assert_eq!(lowered(5, 5), Some(0));
}

#[test]
fn set_keys_reach_exact_values() {
    let mut p = memory_panel(&[37]);
    p.prompt(Key::Char('g'), false).unwrap();
    assert_eq!((p.sliders[0].current, p.sliders[0].setter_getter.value), (0, 0));
    p.prompt(Key::Char('G'), false).unwrap();
    assert_eq!((p.sliders[0].current, p.sliders[0].setter_getter.value), (100, 100));
    p.prompt(Key::Char('m'), false).unwrap();
    assert_eq!((p.sliders[0].current, p.sliders[0].setter_getter.value), (50, 50));
}

#[test]
fn focus_stays_within_panel() {
    let mut p = memory_panel(&[1, 2, 3]);
    assert_eq!(p.prompt(Key::Left, false), Ok(Action::Previous));
    assert_eq!(p.current, 0);
    p.prompt(Key::Right, false).unwrap();
    p.prompt(Key::Char('l'), false).unwrap();
    assert_eq!(p.current, 2);
    p.prompt(Key::Char('l'), false).unwrap();
    assert_eq!(p.current, 2);
    p.prompt(Key::Char('h'), false).unwrap();
    assert_eq!(p.current, 1);
}

#[test]
fn other_keys_change_nothing() {
    let mut p = memory_panel(&[30, 40]);
    assert_eq!(p.prompt(Key::Char('u'), false), Ok(Action::Nothing));
    assert_eq!(p.prompt(Key::Char('?'), false), Ok(Action::Help));
    assert_eq!(p.prompt(Key::Char('q'), false), Ok(Action::Quit));
    assert_eq!(p.prompt(Key::Other, true), Ok(Action::Nothing));
    assert_eq!(p.sliders[0].current, 30);
    assert_eq!(p.sliders[1].current, 40);
    assert_eq!(p.current, 0);
}

#[test]
fn key_bindings() {
    assert_eq!(action_for(Key::Up, false), Action::Raise(1));
    assert_eq!(action_for(Key::Down, false), Action::Lower(1));
    assert_eq!(action_for(Key::Char('k'), true), Action::Raise(1));
    assert_eq!(action_for(Key::Char('u'), true), Action::Raise(10));
    assert_eq!(action_for(Key::Char('d'), true), Action::Lower(10));
    assert_eq!(action_for(Key::Char('d'), false), Action::Nothing);
    assert_eq!(action_for(Key::Char('G'), false), Action::SetTo(100));
}

#[test]
fn accessor_failure_is_returned_and_cache_kept() {
    let mut p = Sliders {
        sliders: vec![Slider { name: "x".to_string(), setter_getter: Broken, current: 7 }],
        clear: false,
        coordinates_percent: (0, 0),
        size_percent: (100, 100),
        current: 0,
    };
    assert_eq!(p.prompt(Key::Char('k'), false), Err(AccessError::Failed("down".to_string())));
    assert_eq!(p.prompt(Key::Char('m'), false), Err(AccessError::Failed("down".to_string())));
    assert_eq!(p.sliders[0].current, 7);
}

#[test]
fn drawing_without_sliders_fails() {
    let p = memory_panel(&[]);
    assert_eq!(p.draw(80, 24), Err(ConfigError::NoSliders));
}

#[test]
fn drawing_two_bars() {
    let p = memory_panel(&[0, 100]);
    let w = p.draw(40, 24).unwrap();
    assert_eq!(w.len(), 42);
    assert_eq!(w[0], Write { col: 18, row: 2, mark: Mark::TopCap });
    assert_eq!(w[1], Write { col: 36, row: 2, mark: Mark::TopCap });
    assert_eq!(w[2], Write { col: 18, row: 3, mark: Mark::Fill(0) });
    assert_eq!(w[3], Write { col: 36, row: 3, mark: Mark::Fill(4) });
    assert_eq!(w[40], Write { col: 18, row: 22, mark: Mark::BottomCap });
    assert_eq!(w[41], Write { col: 36, row: 22, mark: Mark::BottomCap });
}

#[test]
fn partial_fill_levels() {
    let p = memory_panel(&[51, 50]);
    let w = p.draw(40, 24).unwrap();
    // row 11 is the ninth bar row after the top cap at row 2
    let row11: Vec<&Write> = w.iter().filter(|x| x.row == 11).collect();
    assert_eq!(row11[0].mark, Mark::Fill(1));
    assert_eq!(row11[1].mark, Mark::Fill(0));
    let row12: Vec<&Write> = w.iter().filter(|x| x.row == 12).collect();
    assert_eq!(row12[0].mark, Mark::Fill(4));
    assert_eq!(row12[1].mark, Mark::Fill(4));
}

#[test]
fn labels_below_tall_panels() {
    let mut p = memory_panel(&[10, 20]);
    p.current = 1;
    let w = p.draw(40, 40).unwrap();
    let labels: Vec<&Write> = w.iter().filter(|x| matches!(x.mark, Mark::Label { .. })).collect();
    assert_eq!(labels.len(), 2);
    assert_eq!(*labels[0], Write { col: 18, row: 37, mark: Mark::Label { index: 0, focused: false } });
    assert_eq!(*labels[1], Write { col: 36, row: 37, mark: Mark::Label { index: 1, focused: true } });
    assert_eq!(p.mark_text(labels[0].mark), " a ");
    assert_eq!(p.mark_text(labels[1].mark), "[b]");
    assert_eq!(label("vol", true), "[vol]");
}

#[test]
fn single_slider_and_offset_panel() {
    let mut p = memory_panel(&[100]);
    p.coordinates_percent = (50, 10);
    p.size_percent = (50, 50);
    let l = layout(80, 40, (50, 10), (50, 50), 1);
    assert_eq!((l.cols, l.rows, l.x0, l.y0, l.margin, l.spacing), (40, 20, 40, 4, 2, 18));
    let w = p.draw(80, 40).unwrap();
    assert_eq!(w[0], Write { col: 58, row: 6, mark: Mark::TopCap });
    assert_eq!(w.len(), 17);
}

#[test]
fn tiny_terminal_draws_nothing() {
    let p = memory_panel(&[50, 50]);
    assert_eq!(p.draw(0, 0), Ok(vec![]));
    assert_eq!(p.draw(10, 1), Ok(vec![]));
}

#[test]
fn glyph_texts() {
    assert_eq!(glyph(Mark::TopCap), "▛▀▜");
    assert_eq!(glyph(Mark::BottomCap), "▙▄▟");
    assert_eq!(glyph(Mark::Fill(4)), "▌█▐");
    assert_eq!(glyph(Mark::Fill(2)), "▌▄▐");
    assert_eq!(glyph(Mark::Fill(0)), "▌ ▐");
}

#[test]
fn reading_outputs() {
    assert_eq!(read_output("7"), Ok(7));
    assert_eq!(read_output("+7\n"), Ok(7));
    assert_eq!(read_output("007"), Ok(7));
    assert_eq!(read_output("255\n"), Ok(255));
    assert_eq!(read_output("256"), Err(AccessError::NotANumber));
    assert_eq!(read_output("-1"), Err(AccessError::NotANumber));
    assert_eq!(read_output(""), Err(AccessError::NotANumber));
    assert_eq!(read_output("\n"), Err(AccessError::NotANumber));
    assert_eq!(read_output("+"), Err(AccessError::NotANumber));
    assert_eq!(read_output("42\n\n"), Err(AccessError::NotANumber));
    assert_eq!(read_output("4 2"), Err(AccessError::NotANumber));
    assert_eq!(read_output("99999999999"), Err(AccessError::NotANumber));
}

#[test]
fn set_command_templates() {
    assert_eq!(decimal(0), "0");
    assert_eq!(decimal(9), "9");
    assert_eq!(decimal(10), "10");
    assert_eq!(decimal(255), "255");
    assert_eq!(set_command_line("vol {}%", 5), "vol 5%");
    assert_eq!(set_command_line("{}{}", 42), "4242");
    assert_eq!(set_command_line("{{}}", 1), "{1}");
    assert_eq!(set_command_line("none", 1), "none");
    assert_eq!(set_command_line("", 1), "");
}

#[test]
fn argument_errors() {
    assert_eq!(parse_args(&strings(&["--name", "a", "--get"])).err(), Some(ConfigError::MissingValue));
    assert_eq!(parse_args(&strings(&["--name", "a", "--get", "g"])).err(), Some(ConfigError::CountMismatch));
    let r = Sliders::from_args(&strings(&["--clear"]), Echo);
    assert!(matches!(r, Err(StartError::Config(ConfigError::MissingValue))));
}

#[test]
fn argument_options() {
    let d = parse_args(&strings(&["--clear", "true", "--x", "y", "--name", "a", "--get", "g", "--set", "s"])).unwrap();
    assert!(d.clear);
    assert!(!d.help);
    assert_eq!(d.names, strings(&["a"]));
    assert_eq!(d.get_commands, strings(&["g"]));
    assert_eq!(d.set_commands, strings(&["s"]));
    let d = parse_args(&strings(&["--clear", "no", "--help"])).unwrap();
    assert!(!d.clear);
    assert!(d.help);
    assert!(matches!(Sliders::from_args(&strings(&["--help"]), Echo), Ok(None)));
    let p = Sliders::from_args(&strings(&["--name", "a", "--get", "echo 3", "--set", "x", "--clear", "true"]), Echo)
        .unwrap()
        .unwrap();
    assert!(p.clear);
    assert_eq!((p.coordinates_percent, p.size_percent, p.current), ((0, 0), (100, 100), 0));
}

#[test]
fn unreadable_source_stops_start() {
    let r = Sliders::from_args(&strings(&["--name", "a", "--get", "echo x", "--set", "s"]), Echo);
    assert!(matches!(r, Err(StartError::Access(AccessError::NotANumber))));
}

#[test]
fn help_wins_over_flag_errors() {
    assert!(matches!(Sliders::from_args(&strings(&["--name", "a", "--help"]), Echo), Ok(None)));
    assert!(matches!(Sliders::from_args(&strings(&["--help", "x", "--get"]), Echo), Ok(None)));
    let d = parse_args(&strings(&["--name", "a", "--help"])).unwrap();
    assert!(d.help);
    assert_eq!(d.names, strings(&["a"]));
    assert!(d.get_commands.is_empty());
}

#[test]
fn no_definitions_build_an_empty_panel() {
    let p = Sliders::from_args(&strings(&[]), Echo).unwrap().unwrap();
    assert!(p.sliders.is_empty());
    assert_eq!(p.draw(80, 24), Err(ConfigError::NoSliders));
}

#[test]
fn seeding_takes_the_value_read() {
    let t = seeded(memory_slider("a", 3), Ok(64)).ok().unwrap();
    assert_eq!((t.name.as_str(), t.current, t.setter_getter.value), ("a", 64, 3));
    let e = seeded(memory_slider("a", 3), Err(AccessError::NotANumber)).err().unwrap();
    assert_eq!(e, StartError::Access(AccessError::NotANumber));
}

#[test]
fn failed_write_keeps_cache() {
    let runner = Recorder { commands: Vec::new(), value: 10 };
    let mut s = command_line_slider("v".to_string(), "get".to_string(), "oops {}".to_string(), runner);
    s.initialize().unwrap();
    assert_eq!(s.set(30), Err(AccessError::Failed("oops 30".to_string())));
    assert_eq!(s.current, 10);
    assert_eq!(s.setter_getter.runner.commands, strings(&["get", "oops 30"]));
}

#[test]
fn runner_error_on_read_comes_back_as_is() {
    let runner = Recorder { commands: Vec::new(), value: 10 };
    let mut s = command_line_slider("v".to_string(), "bad".to_string(), "set {}".to_string(), runner);
    assert_eq!(s.initialize(), Err(AccessError::Failed("bad".to_string())));
    assert_eq!(s.inc(1), Err(AccessError::Failed("bad".to_string())));
    assert_eq!(s.current, 25);
    assert_eq!(s.setter_getter.runner.commands, strings(&["bad", "bad"]));
}
