//! The help text of the tool.
use vstd::prelude::*;
use crate::text::{chars_of, push_all, string_of};

verus! {

/// The help text before the backup directory it shows.
pub open spec fn help_head() -> Seq<char> {
    "
    Backupr:\n
    -p\t\tPath to folder to place backed up files. Defaults to (OS Home Dir)/backups. or in your case, ("@
}

/// The help text after the backup directory it shows.
pub open spec fn help_tail() -> Seq<char> {
    ")\n\n
    -bp\t\tPath to folder to backup, optional, will back up current directory as fallback.\n\n
    -t\t\tTime in (seconds/hours/days/months/years) between file modification to backup.\tExample: 24d for 24 days. 24h for 24 hours. 1m for 1 month. 120s for 2 minutes.\n\n
    -ext and -ext-neg\t\tAllows you to only backup a certain file extension, or ignore a certain file extension in your backups.\tMay allow for you to run multiple of this program with different parameters, e.g ignoring .mp4, and running another process of backupr to only capture mp4s, and set a time of 3 days since modification.\n
    (pass \"-no-extension\" into -ext args for files with no extension

    Filename modifiers:
    Modifies file fully modularly, prebuilt date-time for US and EU timestamps, or make your own.

    -zoneUTC -zoneLocal, -zone, -date, -dateUS, -dateEU, -day, -month, -year, -day-name, -month-name, -time, -time-ms -time-ns, -seperator -arg-seperator
    Modifiers:
        -zoneUTC uses Coordinated Universal Time for the timezone, -zoneLocal will use your local timezone, -zone will print your local timezone offset.
        -seperator will change what is used to seperate tokens in text, if time was 12 o'clock, would be 12(seperator)00 e.g 12:00, 12.00.
        -arg-seperator will change what is used to seperate each different tokens. Default is \".\"
    Text:
        -date will add the date in ISO 8601 format, -dateUS will be current date in MDY fashion, and -dateEU in European fashion (YMD).
        -day -month and -year, will print day, month, and year in format numerical. (Unless your from beyond 10,000), then so on and so forth.
        -day-name and -month-name will print the name of the day, such as \"Tuesday\" and \"February\".
        -time, -time-ms and -time-ns will place the current time in \"00(seperator)00\" and \"00(seperator)00(seperator)00\" format respectively.
    All of the modifier arguments will take effect on the parameters after them, allowing for multiple uses of the seperator function to change between args."@
}

/// The help text, showing `backup_directory` as the place where backed-up
/// files go by default.
pub fn help_text(backup_directory: &String) -> (r: String)
    ensures
        r@ == help_head() + backup_directory@ + help_tail(),
{
    let mut out = chars_of("
    Backupr:\n
    -p\t\tPath to folder to place backed up files. Defaults to (OS Home Dir)/backups. or in your case, (");
    push_all(&mut out, &chars_of(backup_directory.as_str()));
    push_all(&mut out, &chars_of(")\n\n
    -bp\t\tPath to folder to backup, optional, will back up current directory as fallback.\n\n
    -t\t\tTime in (seconds/hours/days/months/years) between file modification to backup.\tExample: 24d for 24 days. 24h for 24 hours. 1m for 1 month. 120s for 2 minutes.\n\n
    -ext and -ext-neg\t\tAllows you to only backup a certain file extension, or ignore a certain file extension in your backups.\tMay allow for you to run multiple of this program with different parameters, e.g ignoring .mp4, and running another process of backupr to only capture mp4s, and set a time of 3 days since modification.\n
    (pass \"-no-extension\" into -ext args for files with no extension

    Filename modifiers:
    Modifies file fully modularly, prebuilt date-time for US and EU timestamps, or make your own.

    -zoneUTC -zoneLocal, -zone, -date, -dateUS, -dateEU, -day, -month, -year, -day-name, -month-name, -time, -time-ms -time-ns, -seperator -arg-seperator
    Modifiers:
        -zoneUTC uses Coordinated Universal Time for the timezone, -zoneLocal will use your local timezone, -zone will print your local timezone offset.
        -seperator will change what is used to seperate tokens in text, if time was 12 o'clock, would be 12(seperator)00 e.g 12:00, 12.00.
        -arg-seperator will change what is used to seperate each different tokens. Default is \".\"
    Text:
        -date will add the date in ISO 8601 format, -dateUS will be current date in MDY fashion, and -dateEU in European fashion (YMD).
        -day -month and -year, will print day, month, and year in format numerical. (Unless your from beyond 10,000), then so on and so forth.
        -day-name and -month-name will print the name of the day, such as \"Tuesday\" and \"February\".
        -time, -time-ms and -time-ns will place the current time in \"00(seperator)00\" and \"00(seperator)00(seperator)00\" format respectively.
    All of the modifier arguments will take effect on the parameters after them, allowing for multiple uses of the seperator function to change between args."));
    string_of(&out)
}

} // verus!
