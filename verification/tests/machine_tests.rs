use pabuild::item::Item;
use pabuild::machine::Machine;

#[test]
fn get_value_venmo() {
    let keys = vec![
        b"\"data\"".as_slice(),
        b"\"profile\"".as_slice(),
        b"\"identity\"".as_slice(),
        b"\"balance\"".as_slice(),
        b"\"userBalance\"".as_slice(),
        b"\"value\"".as_slice(),
    ];
    let data = b"{\"data\": {\"profile\": {\"identity\": {\"balance\": {\"userBalance\": {\"value\": 523.69\n                    }}}}}}";
    let mut machine = Machine::new(keys);
    let value = String::from_utf8_lossy(machine.extract(data).unwrap()).to_string();
    assert_eq!(value, " 523.69\n                    ")
}

#[test]
fn get_value_example() {
    let keys = vec![
        b"\"glossary\"".as_slice(),
        b"\"GlossDiv\"".as_slice(),
        b"\"title\"".as_slice(),
    ];
    let data = b"{\"glossary\": {\"GlossDiv\": {\"title\": \"S\"}}}";
    let mut machine = Machine::new(keys);
    let value = String::from_utf8_lossy(machine.extract(data).unwrap()).to_string();
    assert_eq!(value, " \"S\"")
}

#[test]
fn extract_missing_key() {
    let keys = vec![b"\"a\"".as_slice(), b"\"b\"".as_slice()];
    let data = b"{\"a\": {\"c\": 1}} trailing padding to out-size the keys";
    let mut machine = Machine::new(keys);
    assert!(machine.extract(data).is_none());
}

#[test]
fn create_nested_item() {
    let item = Item::create("data")
        .append("profile")
        .append("identity")
        .append("balance")
        .append("userBalance")
        .append("value");
    println!("{item:?}");
    assert_eq!(item.label, "value");
    assert_eq!(item.inner().label, "userBalance");
}
