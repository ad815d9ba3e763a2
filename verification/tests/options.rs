use spinnrd::options::{
    get_backend_options, get_frontend_options, get_options, parse_options, OptionTable, Options,
};

fn strings(list: &[&str]) -> Vec<String> {
    list.iter().map(|s| s.to_string()).collect()
}

#[test]
fn options_are_set_and_looked_up() {
    let mut options = Options::new();
    assert_eq!(options.get("path"), None);
    options.insert("path".to_owned(), "/a".to_owned());
    options.insert("scale".to_owned(), "0.5".to_owned());
    assert_eq!(options.get("path"), Some("/a"));
    assert_eq!(options.get("scale"), Some("0.5"));
    assert_eq!(options.get("pat"), None);
    assert_eq!(options.get(""), None);
    options.insert("path".to_owned(), "/b".to_owned());
    assert_eq!(options.get("path"), Some("/b"));
    assert_eq!(options.get("scale"), Some("0.5"));
}

#[test]
fn options_are_read_from_their_text() {
    let mut options = Options::new();
    parse_options(",path=/sys/bus/iio/devices/iio:device0,fix_sign=true", &mut options);
    assert_eq!(options.get("path"), Some("/sys/bus/iio/devices/iio:device0"));
    assert_eq!(options.get("fix_sign"), Some("true"));
    assert_eq!(options.get("scale"), None);
}

#[test]
fn an_option_given_again_takes_the_later_value() {
    let mut options = Options::new();
    options.insert("scale".to_owned(), "1".to_owned());
    parse_options(",scale=2;scale=3", &mut options);
    assert_eq!(options.get("scale"), Some("3"));
}

#[test]
fn text_without_options_sets_nothing() {
    let mut options = Options::new();
    parse_options("", &mut options);
    parse_options("path=/a", &mut options);
    parse_options(",path", &mut options);
    parse_options(",=5", &mut options);
    assert_eq!(options.get("path"), None);
    assert_eq!(options.get(""), None);
}

#[test]
fn a_comma_with_a_backslash_before_it_belongs_to_the_value() {
    let mut options = Options::new();
    parse_options(",a=x\\,y,b=2", &mut options);
    assert_eq!(options.get("a"), Some("x\\,y"));
    assert_eq!(options.get("b"), Some("2"));
}

#[test]
fn a_name_is_read_with_its_options() {
    let (names, table) = get_options("fsaccel,path=/x,fix_sign=true", "");
    assert_eq!(names, strings(&["fsaccel"]));
    let options = table.options("fsaccel");
    assert_eq!(options.get("path"), Some("/x"));
    assert_eq!(options.get("fix_sign"), Some("true"));
    assert_eq!(table.options("fsaccel_raw").get("path"), None);
}

#[test]
fn options_given_apart_come_first() {
    let (names, table) = get_options("file,path=/late", "file,path=/early,mode=0644");
    assert_eq!(names, strings(&["file"]));
    let options = table.options("file");
    assert_eq!(options.get("path"), Some("/late"));
    assert_eq!(options.get("mode"), Some("0644"));
    let (names, table) = get_options("file", "x11,display=:0");
    assert_eq!(names, strings(&["file"]));
    assert_eq!(table.options("file").get("display"), None);
    assert_eq!(table.options("x11").get("display"), Some(":0"));
}

#[test]
fn one_name_is_read_from_a_text() {
    let (names, _) = get_options("fsaccel;fsaccel_raw", "");
    assert_eq!(names, strings(&["fsaccel"]));
    let (names, _) = get_options("", "");
    assert_eq!(names, strings(&[]));
    let (names, _) = get_options(",path=/x", "");
    assert_eq!(names, strings(&[]));
}

#[test]
fn the_defaults_are_the_file_frontend_and_the_filtered_accelerometer() {
    let (names, table) = get_frontend_options(None, None);
    assert_eq!(names, strings(&["file"]));
    assert_eq!(table.options("file").get("path"), None);
    let (names, table) = get_backend_options(None, None);
    assert_eq!(names, strings(&["fsaccel"]));
    assert_eq!(table.options("fsaccel").get("path"), None);
}

#[test]
fn what_is_given_replaces_the_defaults() {
    let (names, table) = get_frontend_options(Some("file,path=/tmp/spin"), None);
    assert_eq!(names, strings(&["file"]));
    assert_eq!(table.options("file").get("path"), Some("/tmp/spin"));
    let (names, table) =
        get_backend_options(Some("fsaccel_raw,scale=0.5"), Some("fsaccel_raw,defscale=1"));
    assert_eq!(names, strings(&["fsaccel_raw"]));
    let options = table.options("fsaccel_raw");
    assert_eq!(options.get("scale"), Some("0.5"));
    assert_eq!(options.get("defscale"), Some("1"));
}

#[test]
fn a_table_keeps_the_options_of_each_owner_apart() {
    let mut table = OptionTable::new();
    table.insert("a", "k".to_owned(), "1".to_owned());
    table.insert("b", "k".to_owned(), "2".to_owned());
    table.insert("a", "k".to_owned(), "3".to_owned());
    table.insert("a", "l".to_owned(), "4".to_owned());
    assert_eq!(table.options("a").get("k"), Some("3"));
    assert_eq!(table.options("a").get("l"), Some("4"));
    assert_eq!(table.options("b").get("k"), Some("2"));
    assert_eq!(table.options("b").get("l"), None);
    assert_eq!(table.options("c").get("k"), None);
}
